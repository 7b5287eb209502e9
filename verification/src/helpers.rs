//! Runtime helpers that Homun's own sources use: which builtins are emitted
//! as Rust macros, indentation, and the capitalisation test.
use vstd::prelude::*;
use crate::text::{run_of, str_eq};

verus! {

/// The Homun builtins emitted as Rust macros (`name!(...)`) rather than as
/// function calls: `range`, `len`, `filter`, `map`, `reduce`, `slice`,
/// `dict` and `set`.
pub open spec fn is_macro_name(s: Seq<char>) -> bool {
    ||| s == "range"@
    ||| s == "len"@
    ||| s == "filter"@
    ||| s == "map"@
    ||| s == "reduce"@
    ||| s == "slice"@
    ||| s == "dict"@
    ||| s == "set"@
}

/// Whether `name` is one of the builtins emitted as a macro call.
pub fn is_homun_macro(name: &str) -> (r: bool)
    ensures
        r == is_macro_name(name@),
{
    str_eq(name, "range") || str_eq(name, "len") || str_eq(name, "filter") || str_eq(name, "map")
        || str_eq(name, "reduce") || str_eq(name, "slice") || str_eq(name, "dict") || str_eq(
        name,
        "set",
    )
}

/// Indentation for nesting depth `n`: four spaces per level.
pub fn indent(n: i32) -> (r: String)
    requires
        0 <= n,
    ensures
        r@ == run_of(' ', 4 * n as nat),
{
    let mut r = String::new();
    let mut i: i32 = 0;
    while i < n
        invariant
            0 <= i <= n,
            r@ == run_of(' ', 4 * i as nat),
        decreases n - i,
    {
        proof {
            reveal_strlit("    ");
        }
        r.append("    ");
        i = i + 1;
        assert(r@ =~= run_of(' ', 4 * i as nat));
    }
    r
}

/// The first character of `s` is an ASCII capital letter `A`–`Z`; false for
/// the empty string.
pub open spec fn starts_with_ascii_upper(s: Seq<char>) -> bool {
    s.len() > 0 && 'A' <= s[0] <= 'Z'
}

/// Whether `s` starts with an ASCII capital letter.
pub fn is_upper_first(s: String) -> (r: bool)
    ensures
        r == starts_with_ascii_upper(s@),
{
    let t = s.as_str();
    if t.unicode_len() == 0 {
        return false;
    }
    let c = t.get_char(0);
    'A' <= c && c <= 'Z'
}

} // verus!
