use distpub::origin::{get_remote_origin, OriginError};

fn lines(v: &[&str]) -> Vec<String> {
    v.iter().map(|s| s.to_string()).collect()
}

#[test]
fn resolves_url_after_origin_marker() {
    let config = lines(&[
        "[core]",
        "\trepositoryformatversion = 0",
        "[remote \"origin\"]",
        "\turl = https://example.com/group/site.git",
        "\tfetch = +refs/heads/*:refs/remotes/origin/*",
    ]);
    assert_eq!(
        get_remote_origin(&config),
        Ok("https://example.com/group/site.git".to_string())
    );
}

#[test]
fn url_value_is_trimmed() {
    let config = lines(&["[remote \"origin\"]", "url   =   https://host/repo.git  "]);
    assert_eq!(
        get_remote_origin(&config),
        Ok("https://host/repo.git".to_string())
    );
}

#[test]
fn url_value_trims_unicode_whitespace() {
    let config = lines(&["[remote \"origin\"]", "url = https://host/repo\u{a0}\u{2003}"]);
    assert_eq!(get_remote_origin(&config), Ok("https://host/repo".to_string()));
}

#[test]
fn missing_marker_is_not_found() {
    let config = lines(&["[core]", "\turl = https://example.com/group/site.git"]);
    assert_eq!(get_remote_origin(&config), Err(OriginError::MarkerNotFound));
}

#[test]
fn empty_config_is_not_found() {
    assert_eq!(get_remote_origin(&lines(&[])), Err(OriginError::MarkerNotFound));
}

#[test]
fn section_header_before_url_is_not_found() {
    let config = lines(&[
        "[remote \"origin\"]",
        "\tfetch = +refs/heads/*:refs/remotes/origin/*",
        "[branch \"main\"]",
        "\turl = https://example.com/group/site.git",
    ]);
    assert_eq!(get_remote_origin(&config), Err(OriginError::UrlNotFound));
}

#[test]
fn marker_with_nothing_after_is_not_found() {
    let config = lines(&["[core]", "[remote \"origin\"]"]);
    assert_eq!(get_remote_origin(&config), Err(OriginError::UrlNotFound));
}

#[test]
fn url_line_without_equals_is_not_found() {
    let config = lines(&["[remote \"origin\"]", "\turl https://example.com/site.git"]);
    assert_eq!(get_remote_origin(&config), Err(OriginError::UrlNotFound));
}

#[test]
fn url_before_marker_does_not_count() {
    let config = lines(&["\turl = https://early.example.com/a.git", "[remote \"origin\"]"]);
    assert_eq!(get_remote_origin(&config), Err(OriginError::UrlNotFound));
}

#[test]
fn first_url_line_after_marker_wins() {
    let config = lines(&[
        "[remote \"origin\"]",
        "\turl = https://first.example.com/a.git",
        "\turl = https://second.example.com/b.git",
    ]);
    assert_eq!(
        get_remote_origin(&config),
        Ok("https://first.example.com/a.git".to_string())
    );
}

#[test]
fn bracket_inside_a_line_does_not_stop_the_scan() {
    let config = lines(&[
        "[remote \"origin\"]",
        "; see [branch] below",
        "a [ b",
        "url = https://host/x.git",
    ]);
    assert_eq!(get_remote_origin(&config), Ok("https://host/x.git".to_string()));
}

#[test]
fn only_a_line_starting_with_bracket_is_a_header() {
    let config = lines(&[
        "[remote \"origin\"]",
        "  [branch \"main\"]",
        "url = https://host/x.git",
    ]);
    assert_eq!(get_remote_origin(&config), Ok("https://host/x.git".to_string()));
}

#[test]
fn url_with_empty_value_resolves_to_empty() {
    let config = lines(&["[remote \"origin\"]", "url ="]);
    assert_eq!(get_remote_origin(&config), Ok(String::new()));
}

#[test]
fn marker_is_found_as_a_substring() {
    let config = lines(&[
        "  [remote \"origin\"] ; section",
        "url = https://host/repo.git",
    ]);
    assert_eq!(get_remote_origin(&config), Ok("https://host/repo.git".to_string()));
}

#[test]
fn splits_at_first_equals_of_the_line() {
    let config = lines(&["[remote \"origin\"]", "url = https://host/a=b"]);
    assert_eq!(get_remote_origin(&config), Ok("https://host/a=b".to_string()));
}
