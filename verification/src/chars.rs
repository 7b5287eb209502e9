//! Character classification of the Homun runtime: each predicate holds of a
//! string when the string is non-empty and every character of it belongs to
//! the class.
use vstd::prelude::*;

verus! {

/// Whether `c` has the Unicode `Alphabetic` property, as
/// `char::is_alphabetic` reports it.
pub uninterp spec fn unicode_alphabetic(c: char) -> bool;

/// Whether `c` has one of the Unicode numeric general categories (`Nd`,
/// `Nl`, `No`), the test that `char::is_numeric` makes.
pub uninterp spec fn unicode_numeric(c: char) -> bool;

/// Alphabetic or numeric: how the documentation of `char::is_alphanumeric`
/// defines it.
pub open spec fn unicode_alphanumeric(c: char) -> bool {
    unicode_alphabetic(c) || unicode_numeric(c)
}

/// Calls `char::is_alphabetic`. Its result is named `unicode_alphabetic`;
/// nothing more is claimed of it.
#[verifier::external_body]
fn char_is_alphabetic(c: char) -> (r: bool)
    ensures
        r == unicode_alphabetic(c),
{
    c.is_alphabetic()
}

/// Calls `char::is_alphanumeric`. Its documentation defines the result as
/// `is_alphabetic() || is_numeric()`, which is what is claimed here; what
/// the numeric categories hold is left to the name `unicode_numeric`.
#[verifier::external_body]
fn char_is_alphanumeric(c: char) -> (r: bool)
    ensures
        r == (unicode_alphabetic(c) || unicode_numeric(c)),
{
    c.is_alphanumeric()
}

/// An ASCII decimal digit `0`–`9`.
pub open spec fn ascii_digit(c: char) -> bool {
    '0' <= c <= '9'
}

/// ASCII whitespace: space, tab, line feed, form feed or carriage return.
pub open spec fn ascii_whitespace(c: char) -> bool {
    c == ' ' || c == '\t' || c == '\n' || c == '\x0C' || c == '\r'
}

/// `s` has at least one character and every character is alphabetic.
pub open spec fn spec_is_alpha(s: Seq<char>) -> bool {
    s.len() > 0 && forall|i: int| 0 <= i < s.len() ==> unicode_alphabetic(#[trigger] s[i])
}

/// `s` has at least one character and every character is alphanumeric.
pub open spec fn spec_is_alnum(s: Seq<char>) -> bool {
    s.len() > 0 && forall|i: int| 0 <= i < s.len() ==> unicode_alphanumeric(#[trigger] s[i])
}

/// `s` has at least one character and every character is an ASCII digit.
pub open spec fn spec_is_digit(s: Seq<char>) -> bool {
    s.len() > 0 && forall|i: int| 0 <= i < s.len() ==> ascii_digit(#[trigger] s[i])
}

/// `s` has at least one character and every character is ASCII whitespace.
pub open spec fn spec_is_ws(s: Seq<char>) -> bool {
    s.len() > 0 && forall|i: int| 0 <= i < s.len() ==> ascii_whitespace(#[trigger] s[i])
}

/// True if `s` is non-empty and every character of it is alphabetic.
pub fn is_alpha(s: &str) -> (r: bool)
    ensures
        r == spec_is_alpha(s@),
{
    if s.is_empty() {
        return false;
    }
    let mut all = true;
    for c in it: s.chars()
        invariant
            it.seq() == s@,
            all == forall|i: int| 0 <= i < it.index() ==> unicode_alphabetic(#[trigger] s@[i]),
    {
        if !char_is_alphabetic(c) {
            all = false;
        }
    }
    all
}

/// True if `s` is non-empty and every character of it is alphanumeric.
pub fn is_alnum(s: &str) -> (r: bool)
    ensures
        r == spec_is_alnum(s@),
{
    if s.is_empty() {
        return false;
    }
    let mut all = true;
    for c in it: s.chars()
        invariant
            it.seq() == s@,
            all == forall|i: int| 0 <= i < it.index() ==> unicode_alphanumeric(#[trigger] s@[i]),
    {
        if !char_is_alphanumeric(c) {
            all = false;
        }
    }
    all
}

/// True if `s` is non-empty and every character of it is an ASCII digit.
pub fn is_digit(s: &str) -> (r: bool)
    ensures
        r == spec_is_digit(s@),
{
    if s.is_empty() {
        return false;
    }
    let mut all = true;
    for c in it: s.chars()
        invariant
            it.seq() == s@,
            all == forall|i: int| 0 <= i < it.index() ==> ascii_digit(#[trigger] s@[i]),
    {
        if !('0' <= c && c <= '9') {
            all = false;
        }
    }
    all
}

/// True if `s` is non-empty and every character of it is ASCII whitespace.
pub fn is_ws(s: &str) -> (r: bool)
    ensures
        r == spec_is_ws(s@),
{
    if s.is_empty() {
        return false;
    }
    let mut all = true;
    for c in it: s.chars()
        invariant
            it.seq() == s@,
            all == forall|i: int| 0 <= i < it.index() ==> ascii_whitespace(#[trigger] s@[i]),
    {
        if !(c == ' ' || c == '\t' || c == '\n' || c == '\x0C' || c == '\r') {
            all = false;
        }
    }
    all
}

/// Every string of letters is also a string of letters and digits.
pub proof fn law_alpha_implies_alnum(s: Seq<char>)
    requires
        spec_is_alpha(s),
    ensures
        spec_is_alnum(s),
{
}

/// The empty string belongs to no class.
pub proof fn law_empty_string_in_no_class()
    ensures
        !spec_is_alpha(Seq::empty()),
        !spec_is_alnum(Seq::empty()),
        !spec_is_digit(Seq::empty()),
        !spec_is_ws(Seq::empty()),
{
}

/// A string of digits is never a string of whitespace.
pub proof fn law_digits_are_not_whitespace(s: Seq<char>)
    requires
        spec_is_digit(s),
    ensures
        !spec_is_ws(s),
{
    assert(ascii_digit(s[0]));
}

/// A one-character string is in a class exactly when its character is:
/// alphabetic and alphanumeric as `char::is_alphabetic` and
/// `char::is_alphanumeric` report, a digit when it is `0`–`9`, whitespace
/// when it is space, tab, line feed, form feed or carriage return.
pub proof fn law_single_char_classes(c: char)
    ensures
        spec_is_alpha(seq![c]) == unicode_alphabetic(c),
        spec_is_alnum(seq![c]) == (unicode_alphabetic(c) || unicode_numeric(c)),
        spec_is_digit(seq![c]) == ('0' <= c && c <= '9'),
        spec_is_ws(seq![c]) == (c == ' ' || c == '\t' || c == '\n' || c == '\x0C' || c == '\r'),
{
    let s = seq![c];
    assert(s[0] == c);
    if unicode_alphabetic(c) {
        assert forall|i: int| 0 <= i < s.len() implies unicode_alphabetic(#[trigger] s[i]) by {
            assert(i == 0);
        }
    }
    if unicode_alphanumeric(c) {
        assert forall|i: int| 0 <= i < s.len() implies unicode_alphanumeric(#[trigger] s[i]) by {
            assert(i == 0);
        }
    }
    if ascii_digit(c) {
        assert forall|i: int| 0 <= i < s.len() implies ascii_digit(#[trigger] s[i]) by {
            assert(i == 0);
        }
    }
    if ascii_whitespace(c) {
        assert forall|i: int| 0 <= i < s.len() implies ascii_whitespace(#[trigger] s[i]) by {
            assert(i == 0);
        }
    }
}

/// A string is in a class exactly when it is non-empty and each of its
/// characters, taken alone, is: joining two strings of a class gives a string
/// of the class, and every non-empty part of a string of the class belongs to
/// it.
pub proof fn law_classes_follow_characters(a: Seq<char>, b: Seq<char>)
    requires
        a.len() > 0,
        b.len() > 0,
    ensures
        spec_is_alpha(a + b) == (spec_is_alpha(a) && spec_is_alpha(b)),
        spec_is_alnum(a + b) == (spec_is_alnum(a) && spec_is_alnum(b)),
        spec_is_digit(a + b) == (spec_is_digit(a) && spec_is_digit(b)),
        spec_is_ws(a + b) == (spec_is_ws(a) && spec_is_ws(b)),
{
    let s = a + b;
    assert forall|i: int| 0 <= i < a.len() implies #[trigger] s[i] == a[i] by {}
    assert forall|i: int| 0 <= i < b.len() implies #[trigger] s[a.len() + i] == b[i] by {}
    if spec_is_alpha(s) {
        assert forall|i: int| 0 <= i < a.len() implies unicode_alphabetic(#[trigger] a[i]) by {
            assert(s[i] == a[i]);
        }
        assert forall|i: int| 0 <= i < b.len() implies unicode_alphabetic(#[trigger] b[i]) by {
            assert(s[a.len() + i] == b[i]);
        }
    }
    if spec_is_alpha(a) && spec_is_alpha(b) {
        assert forall|i: int| 0 <= i < s.len() implies unicode_alphabetic(#[trigger] s[i]) by {
            if i >= a.len() {
                assert(s[i] == b[i - a.len()]);
            }
        }
    }
    if spec_is_alnum(s) {
        assert forall|i: int| 0 <= i < a.len() implies unicode_alphanumeric(#[trigger] a[i]) by {
            assert(s[i] == a[i]);
        }
        assert forall|i: int| 0 <= i < b.len() implies unicode_alphanumeric(#[trigger] b[i]) by {
            assert(s[a.len() + i] == b[i]);
        }
    }
    if spec_is_alnum(a) && spec_is_alnum(b) {
        assert forall|i: int| 0 <= i < s.len() implies unicode_alphanumeric(#[trigger] s[i]) by {
            if i >= a.len() {
                assert(s[i] == b[i - a.len()]);
            }
        }
    }
    if spec_is_digit(s) {
        assert forall|i: int| 0 <= i < a.len() implies ascii_digit(#[trigger] a[i]) by {
            assert(s[i] == a[i]);
        }
        assert forall|i: int| 0 <= i < b.len() implies ascii_digit(#[trigger] b[i]) by {
            assert(s[a.len() + i] == b[i]);
        }
    }
    if spec_is_digit(a) && spec_is_digit(b) {
        assert forall|i: int| 0 <= i < s.len() implies ascii_digit(#[trigger] s[i]) by {
            if i >= a.len() {
                assert(s[i] == b[i - a.len()]);
            }
        }
    }
    if spec_is_ws(s) {
        assert forall|i: int| 0 <= i < a.len() implies ascii_whitespace(#[trigger] a[i]) by {
            assert(s[i] == a[i]);
        }
        assert forall|i: int| 0 <= i < b.len() implies ascii_whitespace(#[trigger] b[i]) by {
            assert(s[a.len() + i] == b[i]);
        }
    }
    if spec_is_ws(a) && spec_is_ws(b) {
        assert forall|i: int| 0 <= i < s.len() implies ascii_whitespace(#[trigger] s[i]) by {
            if i >= a.len() {
                assert(s[i] == b[i - a.len()]);
            }
        }
    }
}

} // verus!
