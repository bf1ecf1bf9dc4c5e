//! Asset path rewriter: derives the repository name from the remote URL and
//! prefixes it to the first occurrence of each output-directory entry name in
//! each line of the entry file.
//!
//! Matching is pure substring search, case-sensitive, with no word-boundary or
//! markup awareness; a name occurring inside unrelated text is rewritten too.
//! That heuristic is deliberate and kept as it is.

use vstd::prelude::*;

verus! {

use vstd::string::StrSliceExecFns;
use vstd::string::StringExecFns;
use crate::text::{
    contains_seq,
    ends_with,
    ends_with_sub,
    first_match,
    last_match_idx,
    lemma_first_match_from_inv,
    lemma_first_match_from_some,
    lemma_last_match_unique,
    match_at,
    find_sub,
    rfind_sub,
};

/// The repository name derived from a remote URL: the URL without its
/// trailing `.git` suffix, if it carries one, then everything after the last
/// `/`; when no `/` is left, the whole URL unchanged.
pub open spec fn repo_name_spec(url: Seq<char>) -> Seq<char> {
    let stripped = if ends_with(url, ".git"@) {
        url.subrange(0, url.len() - ".git"@.len())
    } else {
        url
    };
    if contains_seq(stripped, "/"@) {
        stripped.subrange(last_match_idx(stripped, "/"@) + 1, stripped.len() as int)
    } else {
        url
    }
}

/// Derives the repository name from the remote URL.
pub fn repo_name(url: &str) -> (r: String)
    ensures
        r@ == repo_name_spec(url@),
{
    let n = url.unicode_len();
    let stripped: &str = if ends_with_sub(url, ".git") {
        proof {
            reveal_strlit(".git");
        }
        url.substring_char(0, n - 4)
    } else {
        url
    };
    match rfind_sub(stripped, "/") {
        Some(p) => {
            proof {
                lemma_last_match_unique(
                    stripped@,
                    "/"@,
                    p as int,
                    last_match_idx(stripped@, "/"@),
                );
                reveal_strlit("/");
            }
            let end = stripped.unicode_len();
            stripped.substring_char(p + 1, end).to_owned()
        },
        None => url.to_owned(),
    }
}

/// The inserted prefix: the repository name followed by `/`.
pub open spec fn prefix_seq(repo: Seq<char>) -> Seq<char> {
    repo + "/"@
}

/// `line` with `ins` inserted at position `i`.
pub open spec fn splice_at(line: Seq<char>, i: int, ins: Seq<char>) -> Seq<char> {
    line.subrange(0, i) + ins + line.subrange(i, line.len() as int)
}

/// One candidate name applied to `line`: the prefix is inserted before the
/// first occurrence of `name`, if there is one.
pub open spec fn rewrite_once(line: Seq<char>, name: Seq<char>, repo: Seq<char>) -> Seq<char> {
    match first_match(line, name) {
        Some(i) => splice_at(line, i, prefix_seq(repo)),
        None => line,
    }
}

/// All candidate names applied to `line` in listing order, each searching the
/// line as already mutated by the names before it.
pub open spec fn rewrite_line_spec(line: Seq<char>, names: Seq<Seq<char>>, repo: Seq<char>) -> Seq<
    char,
>
    decreases names.len(),
{
    if names.len() == 0 {
        line
    } else {
        rewrite_line_spec(rewrite_once(line, names[0], repo), names.drop_first(), repo)
    }
}

/// Inserts `repo` and a `/` into `line` at character position `i`.
fn insert_prefix(line: &str, i: usize, repo: &str) -> (r: String)
    requires
        i <= line@.len(),
    ensures
        r@ == splice_at(line@, i as int, prefix_seq(repo@)),
{
    let n = line.unicode_len();
    let mut out = line.substring_char(0, i).to_owned();
    out.append(repo);
    out.append("/");
    out.append(line.substring_char(i, n));
    proof {
        assert(out@ =~= splice_at(line@, i as int, prefix_seq(repo@)));
    }
    out
}

/// Rewrites one line: for each candidate name in order, inserts the
/// `repo/` prefix before the name's first occurrence in the line as rewritten
/// so far. A name occurring twice is rewritten only at its first occurrence.
pub fn rewrite_line(line: &str, names: &Vec<String>, repo: &str) -> (r: String)
    ensures
        r@ == rewrite_line_spec(line@, names.deep_view(), repo@),
{
    let mut cur: String = line.to_owned();
    proof {
        assert(names.deep_view().skip(0) =~= names.deep_view());
    }
    let mut k: usize = 0;
    while k < names.len()
        invariant
            k <= names.len(),
            rewrite_line_spec(cur@, names.deep_view().skip(k as int), repo@)
                == rewrite_line_spec(line@, names.deep_view(), repo@),
        decreases names.len() - k,
    {
        let ghost prev = cur@;
        proof {
            assert(names.deep_view()[k as int] == names@[k as int]@);
        }
        match find_sub(cur.as_str(), names[k].as_str()) {
            Some(i) => {
                cur = insert_prefix(cur.as_str(), i, repo);
            },
            None => {},
        }
        proof {
            assert(cur@ == rewrite_once(prev, names.deep_view()[k as int], repo@));
            assert(names.deep_view().skip(k as int).drop_first() =~= names.deep_view().skip(
                k + 1 as int,
            ));
            assert(names.deep_view().skip(k as int)[0] == names.deep_view()[k as int]);
        }
        k += 1;
    }
    proof {
        assert(names.deep_view().skip(names.len() as int) =~= Seq::<Seq<char>>::empty());
    }
    cur
}

/// Rewrite detection is not idempotent, by design: rewriting a line twice with
/// the same candidate name double-prefixes the occurrence. Precisely: when the
/// first occurrence of `name` in `line` is at `i`, and the once-rewritten line
/// has no occurrence of `name` before or inside the inserted prefix, a second
/// rewrite inserts the prefix again, right after the first insertion — the
/// twice-rewritten line differs from the once-rewritten one.
pub proof fn lemma_rewrite_twice_double_prefixes(
    line: Seq<char>,
    name: Seq<char>,
    repo: Seq<char>,
    i: int,
)
    requires
        first_match(line, name) == Some(i),
        forall|k: int| 0 <= k < i + prefix_seq(repo).len() ==> !match_at(
            splice_at(line, i, prefix_seq(repo)),
            name,
            k,
        ),
    ensures
        rewrite_line_spec(line, seq![name], repo) == splice_at(line, i, prefix_seq(repo)),
        rewrite_line_spec(rewrite_line_spec(line, seq![name], repo), seq![name], repo)
            == splice_at(
            splice_at(line, i, prefix_seq(repo)),
            i + prefix_seq(repo).len(),
            prefix_seq(repo),
        ),
        rewrite_line_spec(rewrite_line_spec(line, seq![name], repo), seq![name], repo)
            != rewrite_line_spec(line, seq![name], repo),
{
    let p = prefix_seq(repo);
    let once = splice_at(line, i, p);
    lemma_first_match_from_inv(line, name, 0, i);
    assert(seq![name][0] == name);
    assert(seq![name].drop_first() =~= Seq::<Seq<char>>::empty());
    assert(rewrite_once(line, name, repo) == once);
    assert(rewrite_line_spec(line, seq![name], repo) == rewrite_line_spec(
        once,
        Seq::<Seq<char>>::empty(),
        repo,
    ));
    assert(rewrite_line_spec(once, Seq::<Seq<char>>::empty(), repo) == once);
    assert(once.len() == line.len() + p.len());
    assert(match_at(once, name, i + p.len())) by {
        assert(once.subrange(i + p.len(), i + p.len() + name.len()) =~= line.subrange(
            i,
            i + name.len(),
        ));
    }
    lemma_first_match_from_some(once, name, 0, i + p.len());
    let twice = splice_at(once, i + p.len(), p);
    assert(rewrite_once(once, name, repo) == twice);
    assert(rewrite_line_spec(once, seq![name], repo) == rewrite_line_spec(
        twice,
        Seq::<Seq<char>>::empty(),
        repo,
    ));
    assert(rewrite_line_spec(twice, Seq::<Seq<char>>::empty(), repo) == twice);
    assert(p.len() > 0) by {
        reveal_strlit("/");
    }
    assert(twice.len() == once.len() + p.len());
}

/// Every line rewritten with the same candidate names and repository name.
pub open spec fn rewrite_lines_spec(
    lines: Seq<Seq<char>>,
    names: Seq<Seq<char>>,
    repo: Seq<char>,
) -> Seq<Seq<char>> {
    lines.map_values(|l: Seq<char>| rewrite_line_spec(l, names, repo))
}

/// Rewrites every line of the entry file.
pub fn rewrite_lines(lines: &Vec<String>, names: &Vec<String>, repo: &str) -> (r: Vec<String>)
    ensures
        r.deep_view() == rewrite_lines_spec(lines.deep_view(), names.deep_view(), repo@),
{
    let mut out: Vec<String> = Vec::new();
    let mut i: usize = 0;
    while i < lines.len()
        invariant
            i <= lines.len(),
            out.deep_view() =~= rewrite_lines_spec(
                lines.deep_view().take(i as int),
                names.deep_view(),
                repo@,
            ),
        decreases lines.len() - i,
    {
        proof {
            assert(lines.deep_view()[i as int] == lines@[i as int]@);
        }
        let ghost prev_out = out.deep_view();
        let l = rewrite_line(lines[i].as_str(), names, repo);
        let ghost lv = l@;
        out.push(l);
        proof {
            assert(out.deep_view() =~= prev_out.push(lv));
            assert(lines.deep_view().take(i + 1 as int) =~= lines.deep_view().take(
                i as int,
            ).push(lines.deep_view()[i as int]));
            assert(out.deep_view() =~= rewrite_lines_spec(
                lines.deep_view().take(i + 1 as int),
                names.deep_view(),
                repo@,
            ));
        }
        i += 1;
    }
    proof {
        assert(lines.deep_view().take(lines.len() as int) =~= lines.deep_view());
    }
    out
}

/// The lines joined with `\n`, without a trailing newline.
pub open spec fn join_spec(lines: Seq<Seq<char>>) -> Seq<char>
    decreases lines.len(),
{
    if lines.len() == 0 {
        Seq::empty()
    } else if lines.len() == 1 {
        lines[0]
    } else {
        lines[0] + "\n"@ + join_spec(lines.drop_first())
    }
}

proof fn lemma_join_push(lines: Seq<Seq<char>>, l: Seq<char>)
    requires
        lines.len() > 0,
    ensures
        join_spec(lines.push(l)) == join_spec(lines) + "\n"@ + l,
    decreases lines.len(),
{
    if lines.len() == 1 {
        assert(lines.push(l)[0] == lines[0]);
        assert(lines.push(l).drop_first() =~= seq![l]);
        assert(seq![l].len() == 1 && seq![l][0] == l);
        assert(join_spec(seq![l]) == l);
        assert(join_spec(lines.push(l)) == lines[0] + "\n"@ + join_spec(seq![l]));
    } else {
        lemma_join_push(lines.drop_first(), l);
        assert(lines.push(l).drop_first() =~= lines.drop_first().push(l));
        assert(join_spec(lines.push(l)) =~= join_spec(lines) + "\n"@ + l);
    }
}

/// Joins the lines with `\n`, without a trailing newline.
pub fn join_lines(lines: &Vec<String>) -> (r: String)
    ensures
        r@ == join_spec(lines.deep_view()),
{
    if lines.len() == 0 {
        return String::new();
    }
    proof {
        assert(lines.deep_view()[0] == lines@[0]@);
    }
    let mut out: String = lines[0].as_str().to_owned();
    let mut i: usize = 1;
    while i < lines.len()
        invariant
            1 <= i <= lines.len(),
            lines.len() > 0,
            out@ == join_spec(lines.deep_view().take(i as int)),
        decreases lines.len() - i,
    {
        proof {
            assert(lines.deep_view()[i as int] == lines@[i as int]@);
        }
        out.append("\n");
        out.append(lines[i].as_str());
        proof {
            lemma_join_push(lines.deep_view().take(i as int), lines.deep_view()[i as int]);
            assert(lines.deep_view().take(i + 1 as int) =~= lines.deep_view().take(i as int).push(
                lines.deep_view()[i as int],
            ));
        }
        i += 1;
    }
    proof {
        assert(lines.deep_view().take(lines.len() as int) =~= lines.deep_view());
    }
    out
}

/// The new contents of the entry file: every line rewritten with the
/// candidate names and the repository name derived from `remote`, joined
/// with `\n`.
pub fn updated_index_text(lines: &Vec<String>, names: &Vec<String>, remote: &str) -> (r: String)
    ensures
        r@ == join_spec(
            rewrite_lines_spec(lines.deep_view(), names.deep_view(), repo_name_spec(remote@)),
        ),
{
    let repo = repo_name(remote);
    let rewritten = rewrite_lines(lines, names, repo.as_str());
    join_lines(&rewritten)
}

} // verus!
