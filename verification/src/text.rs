//! Line splitting and trimming from `str`, as the rest of the library sees them.
use vstd::prelude::*;

verus! {

/// Drops one trailing carriage return.
pub open spec fn strip_cr(t: Seq<char>) -> Seq<char> {
    if t.len() > 0 && t.last() == '\r' {
        t.drop_last()
    } else {
        t
    }
}

/// Index of the first `\n` in `s`, or its length when there is none.
pub open spec fn first_newline(s: Seq<char>) -> nat
    decreases s.len(),
{
    if s.len() == 0 {
        0
    } else if s[0] == '\n' {
        0
    } else {
        1 + first_newline(s.drop_first())
    }
}

/// Index just past the last `\n` in `s`, or `0` when there is none.
pub open spec fn after_last_newline(s: Seq<char>) -> nat
    decreases s.len(),
{
    if s.len() == 0 {
        0
    } else if s.last() == '\n' {
        s.len()
    } else {
        after_last_newline(s.drop_last())
    }
}

/// The first item of `str::lines`: lines end at `\n` or `\r\n`, and the
/// terminator is not part of the line. An empty string has no lines.
pub open spec fn spec_first_line(s: Seq<char>) -> Option<Seq<char>> {
    if s.len() == 0 {
        None
    } else {
        let i = first_newline(s) as int;
        if i == s.len() {
            Some(s)
        } else {
            Some(strip_cr(s.take(i)))
        }
    }
}

/// The last item of `str::lines`. A final line ending is optional, so it
/// closes the last line rather than opening an empty one.
pub open spec fn spec_last_line(s: Seq<char>) -> Option<Seq<char>> {
    if s.len() == 0 {
        None
    } else if s.last() == '\n' {
        let body = s.drop_last();
        Some(strip_cr(body.skip(after_last_newline(body) as int)))
    } else {
        Some(s.skip(after_last_newline(s) as int))
    }
}

/// Whitespace as `char::is_whitespace` defines it: the Unicode
/// `White_Space` property.
pub open spec fn is_unicode_whitespace(c: char) -> bool {
    ||| ('\u{9}' <= c && c <= '\u{d}')
    ||| c == ' '
    ||| c == '\u{85}'
    ||| c == '\u{a0}'
    ||| c == '\u{1680}'
    ||| ('\u{2000}' <= c && c <= '\u{200a}')
    ||| c == '\u{2028}'
    ||| c == '\u{2029}'
    ||| c == '\u{202f}'
    ||| c == '\u{205f}'
    ||| c == '\u{3000}'
}

/// `s` without its leading whitespace.
pub open spec fn trim_start(s: Seq<char>) -> Seq<char>
    decreases s.len(),
{
    if s.len() > 0 && is_unicode_whitespace(s[0]) {
        trim_start(s.drop_first())
    } else {
        s
    }
}

/// `s` without its trailing whitespace.
pub open spec fn trim_end(s: Seq<char>) -> Seq<char>
    decreases s.len(),
{
    if s.len() > 0 && is_unicode_whitespace(s.last()) {
        trim_end(s.drop_last())
    } else {
        s
    }
}

/// What `str::trim` gives back: the string without leading and trailing
/// whitespace.
pub open spec fn str_trim(s: Seq<char>) -> Seq<char> {
    trim_end(trim_start(s))
}

/// What `{:?}` prints for a string: the quoted, escaped form.
pub uninterp spec fn str_debug(s: Seq<char>) -> Seq<char>;

pub open spec fn opt_str_view(o: Option<&str>) -> Option<Seq<char>> {
    match o {
        Some(s) => Some(s@),
        None => None,
    }
}

/// The first item of `str::lines`, as its documentation describes it.
#[verifier::external_body]
pub(crate) fn first_line(s: &str) -> (r: Option<&str>)
    ensures
        opt_str_view(r) == spec_first_line(s@),
{
    s.lines().next()
}

/// The last item of `str::lines`, as its documentation describes it.
#[verifier::external_body]
pub(crate) fn last_line(s: &str) -> (r: Option<&str>)
    ensures
        opt_str_view(r) == spec_last_line(s@),
{
    s.lines().last()
}

/// `str::trim`: the string with leading and trailing whitespace removed,
/// whitespace being the Unicode `White_Space` property, as its documentation
/// and `char::is_whitespace`'s say.
#[verifier::external_body]
pub(crate) fn trim(s: &str) -> (r: &str)
    ensures
        r@ == str_trim(s@),
{
    s.trim()
}

/// `{:?}` on a string. Claims only that the result is the named `str_debug`.
#[verifier::external_body]
pub(crate) fn debug_quoted(s: &str) -> (r: String)
    ensures
        r@ == str_debug(s@),
{
    format!("{:?}", s)
}

} // verus!
