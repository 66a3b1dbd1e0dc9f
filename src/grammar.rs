//! The line-level grammar of changelog headings: the fixed texts, the
//! "Unreleased" heading and the release heading
//! `[<version>] - <date>` with an optional ` [<tag>]`.
use vstd::prelude::*;

verus! {

pub const CHANGELOG_TITLE: &'static str = "Changelog";

pub const NOTABLE_CHANGES_TEXT: &'static str =
    "All notable changes to this project will be documented in this file.";

pub const ABOUT_FORMAT_TEXT: &'static str =
    "The format is based on [Keep a Changelog](https://keepachangelog.com/en/1.1.0/),\nand this project adheres to [Semantic Versioning](https://semver.org/spec/v2.0.0.html).";

pub const UNRELEASED_HEADER_TEXT: &'static str = "Unreleased";

/// Whitespace as the heading grammar counts it: space, tab, line feed,
/// vertical tab, form feed and carriage return.
pub open spec fn is_space(c: char) -> bool {
    c == ' ' || c == '\t' || c == '\n' || c == '\x0B' || c == '\x0C' || c == '\r'
}

/// A character that may stand in a version inside a release heading.
pub open spec fn is_version_char(c: char) -> bool {
    c != ']' && c != '-' && !is_space(c)
}

/// End of the run of version characters of `s` that starts at `i`.
pub open spec fn skip_version(s: Seq<char>, i: int) -> int
    decreases s.len() - i,
{
    if 0 <= i < s.len() && is_version_char(s[i]) {
        skip_version(s, i + 1)
    } else {
        i
    }
}

/// End of the run of whitespace of `s` that starts at `i`.
pub open spec fn skip_space(s: Seq<char>, i: int) -> int
    decreases s.len() - i,
{
    if 0 <= i < s.len() && is_space(s[i]) {
        skip_space(s, i + 1)
    } else {
        i
    }
}

/// End of the run of non-whitespace of `s` that starts at `i`.
pub open spec fn skip_nonspace(s: Seq<char>, i: int) -> int
    decreases s.len() - i,
{
    if 0 <= i < s.len() && !is_space(s[i]) {
        skip_nonspace(s, i + 1)
    } else {
        i
    }
}

/// The tag part that may end a release heading, starting at `e` just after
/// the date: whitespace, then `[`, at least one character other than a line
/// feed, and a closing `]` as the last character.
pub open spec fn spec_tag_part(s: Seq<char>, e: int) -> Option<Seq<char>> {
    let f = skip_space(s, e);
    if f > e && f + 2 < s.len() && s[f] == '[' && s[s.len() - 1] == ']' && (forall|k: int|
        f + 1 <= k < s.len() - 1 ==> s[k] != '\n') {
        Some(s.subrange(f + 1, s.len() - 1))
    } else {
        None
    }
}

/// The version, date and optional tag of a release heading's text, or `None`
/// when the text does not have the shape `[<version>] - <date> [<tag>]`
/// (brackets round the version optional, the tag part optional). A leading
/// `[` opens the brackets only when a version follows it; otherwise it is
/// itself read as the version.
pub open spec fn spec_split_header(s: Seq<char>) -> Option<(Seq<char>, Seq<char>, Option<Seq<char>>)> {
    let o: int = if s.len() > 0 && s[0] == '[' && skip_version(s, 1) > 1 { 1 } else { 0 };
    let a = skip_version(s, o);
    let b = if a < s.len() && s[a] == ']' { a + 1 } else { a };
    let c = skip_space(s, b);
    if a == o || c == b || c >= s.len() || s[c] != '-' {
        None
    } else {
        let d = skip_space(s, c + 1);
        let e = skip_nonspace(s, d);
        if d == c + 1 || e == d {
            None
        } else if e == s.len() {
            Some((s.subrange(o, a), s.subrange(d, e), None))
        } else {
            match spec_tag_part(s, e) {
                Some(t) => Some((s.subrange(o, a), s.subrange(d, e), Some(t))),
                None => None,
            }
        }
    }
}

/// The word "unreleased" in any ASCII letter case.
pub open spec fn is_unreleased_word(s: Seq<char>) -> bool {
    s.len() == 10 && forall|i: int|
        0 <= i < 10 ==> s[i] == "unreleased"@[i] || s[i] == "UNRELEASED"@[i]
}

/// The text of the Unreleased heading: `Unreleased` or `[Unreleased]`, in
/// any ASCII letter case.
pub open spec fn is_unreleased_text(s: Seq<char>) -> bool {
    is_unreleased_word(s) || (s.len() == 12 && s[0] == '[' && s[11] == ']'
        && is_unreleased_word(s.subrange(1, 11)))
}

fn is_space_char(c: char) -> (r: bool)
    ensures
        r == is_space(c),
{
    c == ' ' || c == '\t' || c == '\n' || c == '\x0B' || c == '\x0C' || c == '\r'
}

fn skip_version_exec(s: &str, n: usize, i: usize) -> (r: usize)
    requires
        n == s@.len(),
        i <= n,
    ensures
        r == skip_version(s@, i as int),
        i <= r <= n,
    decreases n - i,
{
    if i < n {
        let c = s.get_char(i);
        if c != ']' && c != '-' && !is_space_char(c) {
            return skip_version_exec(s, n, i + 1);
        }
    }
    i
}

fn skip_space_exec(s: &str, n: usize, i: usize) -> (r: usize)
    requires
        n == s@.len(),
        i <= n,
    ensures
        r == skip_space(s@, i as int),
        i <= r <= n,
    decreases n - i,
{
    if i < n && is_space_char(s.get_char(i)) {
        return skip_space_exec(s, n, i + 1);
    }
    i
}

fn skip_nonspace_exec(s: &str, n: usize, i: usize) -> (r: usize)
    requires
        n == s@.len(),
        i <= n,
    ensures
        r == skip_nonspace(s@, i as int),
        i <= r <= n,
    decreases n - i,
{
    if i < n && !is_space_char(s.get_char(i)) {
        return skip_nonspace_exec(s, n, i + 1);
    }
    i
}

fn tag_part(s: &str, n: usize, e: usize) -> (r: Option<String>)
    requires
        n == s@.len(),
        e <= n,
    ensures
        r matches Some(t) ==> spec_tag_part(s@, e as int) == Some(t@),
        r is None ==> spec_tag_part(s@, e as int) is None,
{
    let f = skip_space_exec(s, n, e);
    if f > e && f < n && n - f > 2 && s.get_char(f) == '[' && s.get_char(n - 1) == ']' {
        let mut k: usize = f + 1;
        while k < n - 1
            invariant
                n == s@.len(),
                f + 1 <= k <= n - 1,
                f + 2 < n,
                f == skip_space(s@, e as int),
                f > e,
                s@[f as int] == '[',
                s@[n - 1] == ']',
                forall|j: int| f + 1 <= j < k ==> s@[j] != '\n',
            decreases n - k,
        {
            if s.get_char(k) == '\n' {
                assert(s@[k as int] == '\n');
                assert(!(forall|j: int| f + 1 <= j < s@.len() - 1 ==> s@[j] != '\n'));
                return None;
            }
            k = k + 1;
        }
        Some(String::from_str(s.substring_char(f + 1, n - 1)))
    } else {
        None
    }
}

/// Splits a release heading's text into version, date and optional tag.
pub fn split_header(s: &str) -> (r: Option<(String, String, Option<String>)>)
    ensures
        match r {
            Some((v, d, t)) => spec_split_header(s@) == Some(
                (v@, d@, match t {
                    Some(x) => Some(x@),
                    None => None,
                }),
            ),
            None => spec_split_header(s@) is None,
        },
{
    let n = s.unicode_len();
    let o: usize = if n > 0 && s.get_char(0) == '[' && skip_version_exec(s, n, 1) > 1 { 1 } else { 0 };
    let a = skip_version_exec(s, n, o);
    let b = if a < n && s.get_char(a) == ']' { a + 1 } else { a };
    let c = skip_space_exec(s, n, b);
    if a == o || c == b || c >= n || s.get_char(c) != '-' {
        return None;
    }
    let d = skip_space_exec(s, n, c + 1);
    let e = skip_nonspace_exec(s, n, d);
    if d == c + 1 || e == d {
        return None;
    }
    let version = String::from_str(s.substring_char(o, a));
    let date = String::from_str(s.substring_char(d, e));
    if e == n {
        return Some((version, date, None));
    }
    match tag_part(s, n, e) {
        Some(t) => Some((version, date, Some(t))),
        None => None,
    }
}

/// Whether a heading's text is the Unreleased heading.
pub fn is_unreleased(s: &str) -> (r: bool)
    ensures
        r == is_unreleased_text(s@),
{
    let n = s.unicode_len();
    if n == 10 {
        assert(s@.subrange(0, 10) =~= s@);
        unreleased_word_at(s, 0)
    } else if n == 12 && s.get_char(0) == '[' && s.get_char(11) == ']' {
        let r = unreleased_word_at(s, 1);
        assert(s@.subrange(1, 11).len() == 10);
        r
    } else {
        false
    }
}

fn unreleased_word_at(s: &str, from: usize) -> (r: bool)
    requires
        from + 10 <= s@.len() <= 12,
        from <= 1,
    ensures
        r == is_unreleased_word(s@.subrange(from as int, from + 10)),
{
    let lower = "unreleased";
    let upper = "UNRELEASED";
    proof {
        reveal_strlit("unreleased");
        reveal_strlit("UNRELEASED");
    }
    let ghost w = s@.subrange(from as int, from + 10);
    let mut i: usize = 0;
    while i < 10
        invariant
            from + 10 <= s@.len() <= 12,
            from <= 1,
            w == s@.subrange(from as int, from + 10),
            lower@ == "unreleased"@,
            upper@ == "UNRELEASED"@,
            lower@.len() == 10,
            upper@.len() == 10,
            i <= 10,
            forall|j: int| 0 <= j < i ==> w[j] == "unreleased"@[j] || w[j] == "UNRELEASED"@[j],
        decreases 10 - i,
    {
        let c = s.get_char(from + i);
        if c != lower.get_char(i) && c != upper.get_char(i) {
            assert(w[i as int] == c);
            return false;
        }
        i = i + 1;
    }
    true
}

} // verus!
