//! Character-sequence searching, used by the origin resolver and the rewriter:
//! substring matching, first and last occurrence, and whitespace trimming.

use vstd::prelude::*;

verus! {

use vstd::string::StrSliceExecFns;

/// `pat` occurs in `hay` starting at position `i`.
pub open spec fn match_at(hay: Seq<char>, pat: Seq<char>, i: int) -> bool {
    0 <= i && i + pat.len() <= hay.len() && hay.subrange(i, i + pat.len()) == pat
}

/// `pat` occurs somewhere in `hay`.
pub open spec fn contains_seq(hay: Seq<char>, pat: Seq<char>) -> bool {
    exists|i: int| match_at(hay, pat, i)
}

/// Position of the first occurrence of `pat` in `hay` at or after `from`.
pub open spec fn first_match_from(hay: Seq<char>, pat: Seq<char>, from: int) -> Option<int>
    decreases hay.len() + 1 - from
        when 0 <= from
{
    if from + pat.len() > hay.len() {
        None
    } else if match_at(hay, pat, from) {
        Some(from)
    } else {
        first_match_from(hay, pat, from + 1)
    }
}

/// Position of the first occurrence of `pat` in `hay`, if any.
pub open spec fn first_match(hay: Seq<char>, pat: Seq<char>) -> Option<int> {
    first_match_from(hay, pat, 0)
}

/// `i` is the position of the last occurrence of `pat` in `hay`.
pub open spec fn is_last_match(hay: Seq<char>, pat: Seq<char>, i: int) -> bool {
    match_at(hay, pat, i) && forall|k: int| k > i ==> !match_at(hay, pat, k)
}

/// The position of the last occurrence of `pat` in `hay`
/// (meaningful when `contains_seq(hay, pat)` holds).
pub open spec fn last_match_idx(hay: Seq<char>, pat: Seq<char>) -> int {
    choose|i: int| is_last_match(hay, pat, i)
}

pub proof fn lemma_first_match_from_some(hay: Seq<char>, pat: Seq<char>, from: int, i: int)
    requires
        0 <= from <= i,
        match_at(hay, pat, i),
        forall|k: int| from <= k < i ==> !match_at(hay, pat, k),
    ensures
        first_match_from(hay, pat, from) == Some(i),
    decreases i - from,
{
    if from < i {
        lemma_first_match_from_some(hay, pat, from + 1, i);
    }
}

pub proof fn lemma_first_match_from_none(hay: Seq<char>, pat: Seq<char>, from: int)
    requires
        0 <= from,
        forall|k: int| k >= from ==> !match_at(hay, pat, k),
    ensures
        first_match_from(hay, pat, from) is None,
    decreases hay.len() - from,
{
    if from + pat.len() <= hay.len() {
        if pat.len() == 0 {
            assert(hay.subrange(from, from) =~= pat);
            assert(false);
        } else {
            lemma_first_match_from_none(hay, pat, from + 1);
        }
    }
}

pub proof fn lemma_first_match_from_inv(hay: Seq<char>, pat: Seq<char>, from: int, i: int)
    requires
        0 <= from,
        first_match_from(hay, pat, from) == Some(i),
    ensures
        from <= i,
        match_at(hay, pat, i),
        forall|k: int| from <= k < i ==> !match_at(hay, pat, k),
    decreases hay.len() - from,
{
    if from + pat.len() <= hay.len() && !match_at(hay, pat, from) {
        if pat.len() == 0 {
            assert(hay.subrange(from, from) =~= pat);
            assert(false);
        } else {
            lemma_first_match_from_inv(hay, pat, from + 1, i);
        }
    }
}

/// Two last-occurrence positions of the same pattern coincide.
pub proof fn lemma_last_match_unique(hay: Seq<char>, pat: Seq<char>, i: int, j: int)
    requires
        is_last_match(hay, pat, i),
        is_last_match(hay, pat, j),
    ensures
        i == j,
{
    if i < j {
        assert(!match_at(hay, pat, j));
    }
    if j < i {
        assert(!match_at(hay, pat, i));
    }
}

/// Compares `pat` against the characters of `hay` starting at position `i`.
fn match_at_exec(hay: &str, pat: &str, i: usize) -> (b: bool)
    requires
        i + pat@.len() <= hay@.len(),
    ensures
        b == match_at(hay@, pat@, i as int),
{
    let n = hay.unicode_len();
    let m = pat.unicode_len();
    let mut j: usize = 0;
    while j < m
        invariant
            j <= m,
            m == pat@.len(),
            n == hay@.len(),
            i + m <= n,
            forall|k: int| 0 <= k < j ==> hay@[i + k] == pat@[k],
        decreases m - j,
    {
        if hay.get_char(i + j) != pat.get_char(j) {
            proof {
                assert(hay@.subrange(i as int, i + m) != pat@) by {
                    if hay@.subrange(i as int, i + m) == pat@ {
                        assert(hay@.subrange(i as int, i + m)[j as int] == hay@[i + j]);
                    }
                }
            }
            return false;
        }
        j += 1;
    }
    proof {
        assert(hay@.subrange(i as int, i + m) =~= pat@);
    }
    true
}

/// Character position of the first occurrence of `pat` in `hay`.
pub fn find_sub(hay: &str, pat: &str) -> (r: Option<usize>)
    ensures
        r is Some <==> contains_seq(hay@, pat@),
        r matches Some(i) ==> first_match(hay@, pat@) == Some(i as int),
        r matches Some(i) ==> match_at(hay@, pat@, i as int) && forall|k: int|
            0 <= k < i ==> !match_at(hay@, pat@, k),
        r is None ==> first_match(hay@, pat@) is None,
{
    let n = hay.unicode_len();
    let m = pat.unicode_len();
    if m > n {
        proof {
            lemma_first_match_from_none(hay@, pat@, 0);
        }
        return None;
    }
    if m == 0 {
        proof {
            assert(match_at(hay@, pat@, 0)) by {
                assert(hay@.subrange(0, 0) =~= pat@);
            }
            lemma_first_match_from_some(hay@, pat@, 0, 0);
        }
        return Some(0);
    }
    let mut i: usize = 0;
    while i <= n - m
        invariant
            0 < m <= n,
            n == hay@.len(),
            m == pat@.len(),
            i <= n - m + 1,
            forall|k: int| 0 <= k < i ==> !match_at(hay@, pat@, k),
        decreases n - m + 1 - i,
    {
        if match_at_exec(hay, pat, i) {
            proof {
                lemma_first_match_from_some(hay@, pat@, 0, i as int);
            }
            return Some(i);
        }
        i += 1;
    }
    proof {
        assert(forall|k: int| k >= 0 ==> !match_at(hay@, pat@, k));
        lemma_first_match_from_none(hay@, pat@, 0);
    }
    None
}

/// Character position of the last occurrence of `pat` in `hay`.
pub fn rfind_sub(hay: &str, pat: &str) -> (r: Option<usize>)
    ensures
        r is Some <==> contains_seq(hay@, pat@),
        r matches Some(i) ==> is_last_match(hay@, pat@, i as int),
{
    let n = hay.unicode_len();
    let m = pat.unicode_len();
    if m > n {
        return None;
    }
    if m == 0 {
        proof {
            assert(match_at(hay@, pat@, n as int)) by {
                assert(hay@.subrange(n as int, n as int) =~= pat@);
            }
        }
        return Some(n);
    }
    let mut i: usize = 0;
    let mut best: Option<usize> = None;
    while i <= n - m
        invariant
            0 < m <= n,
            n == hay@.len(),
            m == pat@.len(),
            i <= n - m + 1,
            match best {
                Some(b) => b < i && match_at(hay@, pat@, b as int) && forall|k: int|
                    b < k < i ==> !match_at(hay@, pat@, k),
                None => forall|k: int| 0 <= k < i ==> !match_at(hay@, pat@, k),
            },
        decreases n - m + 1 - i,
    {
        if match_at_exec(hay, pat, i) {
            best = Some(i);
        }
        i += 1;
    }
    best
}

/// `hay` ends with `pat`.
pub open spec fn ends_with(hay: Seq<char>, pat: Seq<char>) -> bool {
    match_at(hay, pat, hay.len() - pat.len())
}

/// `hay` ends with `pat`.
pub fn ends_with_sub(hay: &str, pat: &str) -> (b: bool)
    ensures
        b == ends_with(hay@, pat@),
{
    let n = hay.unicode_len();
    let m = pat.unicode_len();
    if m > n {
        return false;
    }
    match_at_exec(hay, pat, n - m)
}

/// `pat` occurs somewhere in `hay`.
pub fn contains_sub(hay: &str, pat: &str) -> (b: bool)
    ensures
        b == contains_seq(hay@, pat@),
{
    find_sub(hay, pat).is_some()
}

/// `c` has the Unicode White_Space property, the set of characters
/// that `str::trim` removes.
pub open spec fn is_ws_char(c: char) -> bool {
    ||| c == ' '
    ||| c == '\t'
    ||| c == '\n'
    ||| c == '\u{0b}'
    ||| c == '\u{0c}'
    ||| c == '\r'
    ||| c == '\u{85}'
    ||| c == '\u{a0}'
    ||| c == '\u{1680}'
    ||| ('\u{2000}' <= c && c <= '\u{200a}')
    ||| c == '\u{2028}'
    ||| c == '\u{2029}'
    ||| c == '\u{202f}'
    ||| c == '\u{205f}'
    ||| c == '\u{3000}'
}

fn ws_char(c: char) -> (b: bool)
    ensures
        b == is_ws_char(c),
{
    c == ' ' || c == '\t' || c == '\n' || c == '\u{0b}' || c == '\u{0c}' || c == '\r'
        || c == '\u{85}' || c == '\u{a0}' || c == '\u{1680}'
        || ('\u{2000}' <= c && c <= '\u{200a}') || c == '\u{2028}' || c == '\u{2029}'
        || c == '\u{202f}' || c == '\u{205f}' || c == '\u{3000}'
}

/// `s` without its leading whitespace.
pub open spec fn trim_start_spec(s: Seq<char>) -> Seq<char>
    decreases s.len(),
{
    if s.len() > 0 && is_ws_char(s[0]) {
        trim_start_spec(s.drop_first())
    } else {
        s
    }
}

/// `s` without its trailing whitespace.
pub open spec fn trim_end_spec(s: Seq<char>) -> Seq<char>
    decreases s.len(),
{
    if s.len() > 0 && is_ws_char(s.last()) {
        trim_end_spec(s.drop_last())
    } else {
        s
    }
}

/// `s` without leading and trailing whitespace.
pub open spec fn trim_spec(s: Seq<char>) -> Seq<char> {
    trim_end_spec(trim_start_spec(s))
}

proof fn lemma_trim_start_at(s: Seq<char>, a: int)
    requires
        0 <= a <= s.len(),
        forall|k: int| 0 <= k < a ==> is_ws_char(s[k]),
        a == s.len() || !is_ws_char(s[a]),
    ensures
        trim_start_spec(s) == s.skip(a),
    decreases a,
{
    if a == 0 {
        assert(s.skip(0) =~= s);
    } else {
        let t = s.drop_first();
        assert(t =~= s.skip(1));
        lemma_trim_start_at(t, a - 1);
        assert(t.skip(a - 1) =~= s.skip(a));
    }
}

proof fn lemma_trim_end_at(s: Seq<char>, b: int)
    requires
        0 <= b <= s.len(),
        forall|k: int| b <= k < s.len() ==> is_ws_char(s[k]),
        b == 0 || !is_ws_char(s[b - 1]),
    ensures
        trim_end_spec(s) == s.take(b),
    decreases s.len() - b,
{
    if b == s.len() {
        assert(s.take(b) =~= s);
    } else {
        let t = s.drop_last();
        lemma_trim_end_at(t, b);
        assert(t.take(b) =~= s.take(b));
    }
}

/// `s` with leading and trailing whitespace removed, as `str::trim` does.
pub fn trim(s: &str) -> (r: &str)
    ensures
        r@ == trim_spec(s@),
{
    let n = s.unicode_len();
    let mut a: usize = 0;
    while a < n && ws_char(s.get_char(a))
        invariant
            a <= n,
            n == s@.len(),
            forall|k: int| 0 <= k < a ==> is_ws_char(s@[k]),
        decreases n - a,
    {
        a += 1;
    }
    let mut b: usize = n;
    while b > a && ws_char(s.get_char(b - 1))
        invariant
            a <= b <= n,
            n == s@.len(),
            forall|k: int| b <= k < n ==> is_ws_char(s@[k]),
        decreases b,
    {
        b -= 1;
    }
    let r = s.substring_char(a, b);
    proof {
        lemma_trim_start_at(s@, a as int);
        let t = s@.skip(a as int);
        if b == a {
            lemma_trim_end_at(t, 0);
        } else {
            assert(!is_ws_char(t[b - a - 1]));
            lemma_trim_end_at(t, b - a);
        }
        assert(t.take(b - a) =~= s@.subrange(a as int, b as int));
    }
    r
}

} // verus!
