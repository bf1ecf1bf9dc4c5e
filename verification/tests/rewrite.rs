use distpub::rewrite::{join_lines, repo_name, rewrite_line, rewrite_lines, updated_index_text};

fn strings(v: &[&str]) -> Vec<String> {
    v.iter().map(|s| s.to_string()).collect()
}

#[test]
fn repo_name_strips_suffix_and_path() {
    assert_eq!(repo_name("https://host/group/Name.git"), "Name");
}

#[test]
fn repo_name_without_suffix() {
    assert_eq!(repo_name("https://host/group/Name"), "Name");
}

#[test]
fn repo_name_without_slash_is_whole_url() {
    assert_eq!(repo_name("Name.git"), "Name.git");
}

#[test]
fn repo_name_of_ssh_url() {
    assert_eq!(repo_name("git@example.com:group/repo.git"), "repo");
}

#[test]
fn repo_name_strips_only_the_trailing_suffix() {
    assert_eq!(repo_name("https://user.github.io/pages.git"), "pages");
}

#[test]
fn repo_name_ignores_suffix_inside_the_host() {
    assert_eq!(repo_name("https://user.github.io/pages"), "pages");
}

#[test]
fn rewrite_prefixes_first_occurrence() {
    let names = strings(&["app.js", "style.css"]);
    assert_eq!(
        rewrite_line("<script src=\"app.js\"></script>", &names, "Name"),
        "<script src=\"Name/app.js\"></script>"
    );
}

#[test]
fn rewrite_leaves_second_occurrence_alone() {
    let names = strings(&["app.js"]);
    assert_eq!(
        rewrite_line("app.js then app.js again", &names, "Name"),
        "Name/app.js then app.js again"
    );
}

#[test]
fn rewrite_applies_each_name_in_order() {
    let names = strings(&["app.js", "style.css"]);
    assert_eq!(
        rewrite_line("<link href=\"style.css\"><script src=\"app.js\">", &names, "R"),
        "<link href=\"R/style.css\"><script src=\"R/app.js\">"
    );
}

#[test]
fn rewrite_without_match_keeps_line() {
    let names = strings(&["app.js"]);
    assert_eq!(rewrite_line("<p>hello</p>", &names, "Name"), "<p>hello</p>");
}

#[test]
fn rewrite_matches_inside_unrelated_text() {
    let names = strings(&["app.js"]);
    assert_eq!(
        rewrite_line("grapp.js is unrelated", &names, "R"),
        "grR/app.js is unrelated"
    );
}

#[test]
fn rewriting_twice_double_prefixes() {
    let names = strings(&["app.js"]);
    let once = rewrite_line("<script src=\"app.js\"></script>", &names, "Name");
    let twice = rewrite_line(once.as_str(), &names, "Name");
    assert_eq!(once, "<script src=\"Name/app.js\"></script>");
    assert_eq!(twice, "<script src=\"Name/Name/app.js\"></script>");
    assert_ne!(twice, once);
}

#[test]
fn rewrite_lines_touches_every_line() {
    let names = strings(&["app.js", "style.css"]);
    let lines = strings(&[
        "<script src=\"app.js\"></script>",
        "<link href=\"style.css\">",
        "<p>plain</p>",
    ]);
    let out = rewrite_lines(&lines, &names, "Name");
    assert_eq!(
        out,
        strings(&[
            "<script src=\"Name/app.js\"></script>",
            "<link href=\"Name/style.css\">",
            "<p>plain</p>",
        ])
    );
}

#[test]
fn join_lines_uses_newline_without_trailing() {
    assert_eq!(join_lines(&strings(&["a", "b", "c"])), "a\nb\nc");
}

#[test]
fn join_lines_of_one_line() {
    assert_eq!(join_lines(&strings(&["only"])), "only");
}

#[test]
fn join_lines_of_nothing() {
    assert_eq!(join_lines(&strings(&[])), "");
}

#[test]
fn updated_index_text_end_to_end() {
    let lines = strings(&[
        "<html>",
        "<script src=\"bundle.js\"></script>",
        "</html>",
    ]);
    let names = strings(&["bundle.js", "index.html"]);
    let text = updated_index_text(&lines, &names, "https://example.com/group/site.git");
    assert_eq!(text, "<html>\n<script src=\"site/bundle.js\"></script>\n</html>");
}
