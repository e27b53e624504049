//! Text operations on names and on the literal text of element trees.
//!
//! The analyses compare names without regard to ASCII case and look for a
//! marker at the end of literal text once trailing white space is removed.
//! Both are stated here over `Seq<char>`; the standard library's string
//! functions do the work.
use vstd::prelude::*;
use vstd::string::StrSliceExecFns;
use vstd::string::StringExecFns;

verus! {

/// The code point of `c`, with the ASCII capital letters mapped to their
/// small counterparts.
pub open spec fn fold_ascii_case(c: char) -> u32 {
    let n = c as u32;
    if 0x41 <= n <= 0x5A {
        (n + 0x20) as u32
    } else {
        n
    }
}

/// Whether `a` and `b` are equal up to the case of ASCII letters.
pub open spec fn eq_ascii_nocase(a: Seq<char>, b: Seq<char>) -> bool {
    &&& a.len() == b.len()
    &&& forall|i: int|
        0 <= i < a.len() ==> fold_ascii_case(#[trigger] a[i]) == fold_ascii_case(b[i])
}

/// Whether `c` has the Unicode property `White_Space`.
pub open spec fn is_white_space(c: char) -> bool {
    let n = c as u32;
    ||| 0x09 <= n <= 0x0D
    ||| n == 0x20
    ||| n == 0x85
    ||| n == 0xA0
    ||| n == 0x1680
    ||| 0x2000 <= n <= 0x200A
    ||| n == 0x2028
    ||| n == 0x2029
    ||| n == 0x202F
    ||| n == 0x205F
    ||| n == 0x3000
}

/// `s` without the white space at its end.
pub open spec fn trimmed_end(s: Seq<char>) -> Seq<char>
    decreases s.len(),
{
    if s.len() > 0 && is_white_space(s.last()) {
        trimmed_end(s.drop_last())
    } else {
        s
    }
}

/// Whether `s` ends with `suffix`.
pub open spec fn has_suffix(s: Seq<char>, suffix: Seq<char>) -> bool {
    &&& suffix.len() <= s.len()
    &&& s.subrange(s.len() - suffix.len(), s.len() as int) == suffix
}

/// The marker that literal text carries at its end to say that the
/// interpolation after it needs no tracking.
pub open spec fn static_marker() -> Seq<char> {
    "#static"@
}

/// Whether literal text ends with the marker, white space at its end aside.
pub open spec fn has_static_marker(text: Seq<char>) -> bool {
    has_suffix(trimmed_end(text), static_marker())
}

/// Literal text that ends with the marker, without the marker and without
/// the white space that followed it.
pub open spec fn strip_static_marker(text: Seq<char>) -> Seq<char> {
    let t = trimmed_end(text);
    t.subrange(0, t.len() - static_marker().len())
}

/// `str::eq_ignore_ascii_case` of the standard library: true exactly when
/// the two strings have the same length and agree character by character
/// once the ASCII letters `A` to `Z` are read as `a` to `z`.
pub assume_specification[ str::eq_ignore_ascii_case ](a: &str, b: &str) -> (r: bool)
    ensures
        r == eq_ascii_nocase(a@, b@),
;

/// `str::trim_end` of the standard library: the longest prefix of the string
/// that does not end in a character with the Unicode property `White_Space`.
pub assume_specification[ str::trim_end ](s: &str) -> (r: &str)
    ensures
        r@ == trimmed_end(s@),
;

/// `str::ends_with` of the standard library, called with a string as the
/// pattern: true exactly when the pattern is a suffix of the string.
#[verifier::external_body]
fn str_ends_with(s: &str, suffix: &str) -> (r: bool)
    ensures
        r == has_suffix(s@, suffix@),
{
    s.ends_with(suffix)
}

/// The text without its marker, where `text` ends with the marker.
pub fn strip_marker(text: &str) -> (r: Option<String>)
    ensures
        r is Some <==> has_static_marker(text@),
        r matches Some(s) ==> s@ == strip_static_marker(text@),
{
    let t = text.trim_end();
    if str_ends_with(t, "#static") {
        proof {
            reveal_strlit("#static");
        }
        let n = t.unicode_len();
        Some(String::from_str(t.substring_char(0, n - 7)))
    } else {
        None
    }
}

/// Whether `a` and `b` hold the same characters.
pub fn same_text(a: &str, b: &str) -> (r: bool)
    ensures
        r == (a@ == b@),
{
    String::from_str(a) == String::from_str(b)
}

} // verus!
