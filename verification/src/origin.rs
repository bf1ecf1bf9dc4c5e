//! Origin resolver: scans the lines of a repository configuration file for the
//! `[remote "origin"]` section and returns the trimmed value of the first
//! `url = ...` assignment that follows it, before any other section header.

use vstd::prelude::*;

verus! {

use vstd::string::StrSliceExecFns;
use crate::text::{contains_seq, contains_sub, find_sub, first_match, trim, trim_spec};

/// Why no remote URL could be resolved.
#[derive(Clone, Copy, Debug, PartialEq, Eq, Structural)]
pub enum OriginError {
    /// No line of the configuration mentions the `[remote "origin"]` section.
    MarkerNotFound,
    /// The section was found, but no `url` assignment before the next
    /// section header, or the `url` line carries no `=`.
    UrlNotFound,
}

/// The section header that opens the origin remote's configuration.
pub open spec fn origin_marker() -> Seq<char> {
    "[remote \"origin\"]"@
}

/// `l` mentions the origin section header.
pub open spec fn has_marker(l: Seq<char>) -> bool {
    contains_seq(l, origin_marker())
}

/// `l` opens a new bracketed section: its first character is `[`.
pub open spec fn starts_section(l: Seq<char>) -> bool {
    l.len() > 0 && l[0] == '['
}

/// `l` ends the scan that follows the marker: it mentions `url`
/// or opens a section.
pub open spec fn is_stop(l: Seq<char>) -> bool {
    contains_seq(l, "url"@) || starts_section(l)
}

/// A stop line that actually yields a URL: it mentions `url` and carries an `=`.
pub open spec fn yields_url(l: Seq<char>) -> bool {
    contains_seq(l, "url"@) && first_match(l, "="@) is Some
}

/// The trimmed text after the first `=` of `l`
/// (meaningful when `first_match(l, "="@)` is `Some`).
pub open spec fn extracted_url(l: Seq<char>) -> Seq<char> {
    trim_spec(l.subrange(first_match(l, "="@)->Some_0 + 1, l.len() as int))
}

/// `m` is the first line mentioning the origin section header.
pub open spec fn is_first_marker(lines: Seq<Seq<char>>, m: int) -> bool {
    &&& 0 <= m < lines.len()
    &&& has_marker(lines[m])
    &&& forall|k: int| 0 <= k < m ==> !has_marker(lines[k])
}

/// `j` is the first stop line strictly after line `m`.
pub open spec fn is_first_stop_after(lines: Seq<Seq<char>>, m: int, j: int) -> bool {
    &&& m < j < lines.len()
    &&& is_stop(lines[j])
    &&& forall|k: int| m < k < j ==> !is_stop(lines[k])
}

/// No line mentions the origin section header.
pub open spec fn no_marker(lines: Seq<Seq<char>>) -> bool {
    forall|i: int| 0 <= i < lines.len() ==> !has_marker(lines[i])
}

/// After the first marker line `m`, the scan cannot yield a URL: either no
/// stop line follows, or the first one does not yield a URL.
pub open spec fn stop_fails_after(lines: Seq<Seq<char>>, m: int) -> bool {
    ||| forall|j: int| m < j < lines.len() ==> !is_stop(lines[j])
    ||| exists|j: int| is_first_stop_after(lines, m, j) && !yields_url(lines[j])
}

/// Index of the first line mentioning the origin section header.
fn find_marker(lines: &Vec<String>) -> (r: Option<usize>)
    ensures
        r matches Some(m) ==> is_first_marker(lines.deep_view(), m as int),
        r is None ==> no_marker(lines.deep_view()),
{
    let mut i: usize = 0;
    while i < lines.len()
        invariant
            i <= lines.len(),
            forall|k: int| 0 <= k < i ==> !has_marker(lines.deep_view()[k]),
        decreases lines.len() - i,
    {
        proof {
            assert(lines.deep_view()[i as int] == lines@[i as int]@);
        }
        if contains_sub(lines[i].as_str(), "[remote \"origin\"]") {
            return Some(i);
        }
        i += 1;
    }
    None
}

/// Whether the line's first character is `[`.
fn starts_section_exec(line: &str) -> (b: bool)
    ensures
        b == starts_section(line@),
{
    if line.unicode_len() == 0 {
        false
    } else {
        line.get_char(0) == '['
    }
}

/// Index of the first stop line strictly after line `m`.
fn find_stop_after(lines: &Vec<String>, m: usize) -> (r: Option<usize>)
    requires
        m < lines.len(),
    ensures
        r matches Some(j) ==> is_first_stop_after(lines.deep_view(), m as int, j as int),
        r is None ==> forall|j: int|
            m < j < lines.deep_view().len() ==> !is_stop(lines.deep_view()[j]),
{
    let mut i: usize = m + 1;
    while i < lines.len()
        invariant
            m < i <= lines.len(),
            forall|k: int| m < k < i ==> !is_stop(lines.deep_view()[k]),
        decreases lines.len() - i,
    {
        proof {
            assert(lines.deep_view()[i as int] == lines@[i as int]@);
        }
        if contains_sub(lines[i].as_str(), "url") || starts_section_exec(lines[i].as_str()) {
            return Some(i);
        }
        i += 1;
    }
    None
}

/// Resolves the origin remote's URL from the lines of the configuration file.
///
/// Scans for the first line mentioning `[remote "origin"]`; from the lines
/// after it, takes the first that mentions `url` or opens a new bracketed
/// section (its first character is `[`); if that line mentions `url` and
/// carries an `=`, the trimmed text after the first `=` is the URL. Every
/// other outcome is a not-found error.
pub fn get_remote_origin(lines: &Vec<String>) -> (r: Result<String, OriginError>)
    ensures
        match r {
            Ok(url) => exists|m: int, j: int|
                is_first_marker(lines.deep_view(), m) && is_first_stop_after(
                    lines.deep_view(),
                    m,
                    j,
                ) && yields_url(lines.deep_view()[j]) && url@ == extracted_url(
                    lines.deep_view()[j],
                ),
            Err(OriginError::MarkerNotFound) => no_marker(lines.deep_view()),
            Err(OriginError::UrlNotFound) => exists|m: int|
                is_first_marker(lines.deep_view(), m) && stop_fails_after(lines.deep_view(), m),
        },
{
    let m = match find_marker(lines) {
        Some(m) => m,
        None => {
            return Err(OriginError::MarkerNotFound);
        },
    };
    let j = match find_stop_after(lines, m) {
        Some(j) => j,
        None => {
            return Err(OriginError::UrlNotFound);
        },
    };
    proof {
        assert(lines.deep_view()[j as int] == lines@[j as int]@);
    }
    let line = lines[j].as_str();
    if contains_sub(line, "url") {
        if let Some(e) = find_sub(line, "=") {
            proof {
                reveal_strlit("=");
            }
            let n = line.unicode_len();
            let rhs = line.substring_char(e + 1, n);
            let url = trim(rhs).to_owned();
            return Ok(url);
        }
    }
    Err(OriginError::UrlNotFound)
}

} // verus!
