//! The runtime text that compiled programs carry: the embedded `std`
//! library (its module file with `include!` lines dropped, followed by its
//! parts), the preamble of every generated file, and the lookup of embedded
//! libraries that a program's `use` statements name.
use vstd::prelude::*;
use vstd::hash_map::StringHashMap;
use crate::ast::Stmt;
use crate::text::{join_strings, join_with, str_chars, str_eq, views};

verus! {

// ─── Lines ──────────────────────────────────────────────────────────────────

/// The first position at or after `from` that holds a line feed, or the
/// length of `s` when there is none.
pub open spec fn next_newline(s: Seq<char>, from: int) -> int
    decreases s.len() - from,
{
    if from >= s.len() {
        s.len() as int
    } else if s[from] == '\n' {
        from
    } else {
        next_newline(s, from + 1)
    }
}

/// Where the next line feed lies relative to the search start.
pub proof fn lemma_next_newline_bounds(s: Seq<char>, from: int)
    requires
        0 <= from,
    ensures
        from <= next_newline(s, from) || from > s.len(),
        next_newline(s, from) <= s.len() || from > s.len(),
        next_newline(s, from) < s.len() ==> s[next_newline(s, from)] == '\n',
        forall|k: int| from <= k < next_newline(s, from) && k < s.len() ==> s[k] != '\n',
    decreases s.len() - from,
{
    if from < s.len() && s[from] != '\n' {
        lemma_next_newline_bounds(s, from + 1);
    }
}

/// A line without the carriage return of a `\r\n` ending.
pub open spec fn strip_cr(line: Seq<char>) -> Seq<char> {
    if line.len() > 0 && line.last() == '\r' {
        line.drop_last()
    } else {
        line
    }
}

/// The lines of `s` from position `start` on.
pub open spec fn lines_from(s: Seq<char>, start: int) -> Seq<Seq<char>>
    decreases s.len() - start,
{
    if start < 0 || start >= s.len() {
        Seq::empty()
    } else {
        let e = next_newline(s, start);
        if e >= s.len() {
            seq![s.subrange(start, s.len() as int)]
        } else {
            proof {
                lemma_next_newline_bounds(s, start);
            }
            seq![strip_cr(s.subrange(start, e))] + lines_from(s, e + 1)
        }
    }
}

/// The lines of `s` as `str::lines` yields them: split at each line feed,
/// a carriage return just before the line feed dropped, no empty line after
/// a final line ending, and no line at all for empty text.
pub open spec fn lines(s: Seq<char>) -> Seq<Seq<char>> {
    lines_from(s, 0)
}

proof fn lemma_no_newline_between(s: Seq<char>, start: int, i: int)
    requires
        0 <= start <= i <= s.len(),
        forall|k: int| start <= k < i ==> s[k] != '\n',
    ensures
        next_newline(s, start) == next_newline(s, i),
    decreases i - start,
{
    if start < i {
        lemma_no_newline_between(s, start + 1, i);
    }
}

/// The lines of `text`.
pub fn split_lines(text: &str) -> (r: Vec<String>)
    ensures
        views(r@) == lines(text@),
{
    let cs = str_chars(text);
    let n = cs.len();
    let ghost s = text@;
    let mut out: Vec<String> = Vec::new();
    let mut start: usize = 0;
    let mut i: usize = 0;
    while i < n
        invariant
            cs@ == s,
            s == text@,
            n == s.len(),
            start <= i <= n,
            forall|k: int| start <= k < i ==> s[k] != '\n',
            views(out@) + lines_from(s, start as int) == lines(s),
        decreases n - i,
    {
        if cs[i] == '\n' {
            proof {
                lemma_no_newline_between(s, start as int, i as int);
                assert(next_newline(s, i as int) == i);
            }
            let line: &str = if i > start && cs[i - 1] == '\r' {
                text.substring_char(start, i - 1)
            } else {
                text.substring_char(start, i)
            };
            proof {
                assert(line@ == strip_cr(s.subrange(start as int, i as int)));
                assert(lines_from(s, start as int) == seq![line@] + lines_from(s, i + 1));
            }
            let ghost before = out@;
            out.push(line.to_owned());
            proof {
                assert(views(out@) =~= views(before).push(line@));
                assert(views(out@) + lines_from(s, i + 1) =~= views(before) + lines_from(
                    s,
                    start as int,
                ));
            }
            start = i + 1;
        }
        i = i + 1;
    }
    if start < n {
        proof {
            lemma_no_newline_between(s, start as int, n as int);
            assert(lines_from(s, start as int) == seq![s.subrange(start as int, n as int)]);
        }
        let line = text.substring_char(start, n);
        let ghost before = out@;
        out.push(line.to_owned());
        proof {
            assert(views(out@) =~= views(before).push(line@));
            assert(views(out@) =~= views(before) + lines_from(s, start as int));
        }
    } else {
        proof {
            assert(views(out@) =~= views(out@) + lines_from(s, start as int));
        }
    }
    out
}

// ─── Trimming ───────────────────────────────────────────────────────────────

/// Whether `c` has the Unicode `White_Space` property, the test that
/// `char::is_whitespace` makes: tab, line feed, vertical tab, form feed,
/// carriage return, space, next line, no-break space, ogham space mark, the
/// spaces U+2000 to U+200A, line separator, paragraph separator, narrow
/// no-break space, medium mathematical space and ideographic space.
pub open spec fn unicode_whitespace(c: char) -> bool {
    ||| '\u{9}' <= c <= '\u{d}'
    ||| c == ' '
    ||| c == '\u{85}'
    ||| c == '\u{a0}'
    ||| c == '\u{1680}'
    ||| '\u{2000}' <= c <= '\u{200a}'
    ||| c == '\u{2028}'
    ||| c == '\u{2029}'
    ||| c == '\u{202f}'
    ||| c == '\u{205f}'
    ||| c == '\u{3000}'
}

/// Whether `c` is Unicode whitespace.
fn char_is_whitespace(c: char) -> (r: bool)
    ensures
        r == unicode_whitespace(c),
{
    ('\u{9}' <= c && c <= '\u{d}') || c == ' ' || c == '\u{85}' || c == '\u{a0}' || c
        == '\u{1680}' || ('\u{2000}' <= c && c <= '\u{200a}') || c == '\u{2028}' || c
        == '\u{2029}' || c == '\u{202f}' || c == '\u{205f}' || c == '\u{3000}'
}

/// `l` without its leading whitespace.
pub open spec fn trim_start(l: Seq<char>) -> Seq<char>
    decreases l.len(),
{
    if l.len() > 0 && unicode_whitespace(l[0]) {
        trim_start(l.drop_first())
    } else {
        l
    }
}

/// `l` without its trailing whitespace.
pub open spec fn trim_end(l: Seq<char>) -> Seq<char>
    decreases l.len(),
{
    if l.len() > 0 && unicode_whitespace(l.last()) {
        trim_end(l.drop_last())
    } else {
        l
    }
}

/// `l` without leading and trailing whitespace, as `str::trim` gives it.
pub open spec fn trim(l: Seq<char>) -> Seq<char> {
    trim_end(trim_start(l))
}

/// `p` is a prefix of `s`.
pub open spec fn starts_with(s: Seq<char>, p: Seq<char>) -> bool {
    p.len() <= s.len() && s.subrange(0, p.len() as int) == p
}

/// A line of the `std` module file that pulls in another file; such lines
/// are dropped, since the parts are appended in full.
pub open spec fn is_include_line(l: Seq<char>) -> bool {
    starts_with(trim(l), "include!("@)
}

/// Whether `line`, trimmed, starts with `include!(`.
pub fn include_line(line: &str) -> (r: bool)
    ensures
        r == is_include_line(line@),
{
    let cs = str_chars(line);
    let ghost l = line@;
    let n = cs.len();
    let mut a: usize = 0;
    let mut done = false;
    proof {
        assert(l.subrange(0, n as int) =~= l);
    }
    while !done && a < n
        invariant
            cs@ == l,
            n == l.len(),
            a <= n,
            trim_start(l) == trim_start(l.subrange(a as int, n as int)),
            done ==> a < n && !unicode_whitespace(l[a as int]),
        decreases n - a, if done { 0int } else { 1int },
    {
        if char_is_whitespace(cs[a]) {
            proof {
                assert(l.subrange(a as int, n as int).drop_first() =~= l.subrange(a + 1, n as int));
            }
            a = a + 1;
        } else {
            done = true;
        }
    }
    let ghost ts = l.subrange(a as int, n as int);
    proof {
        if a == n {
            assert(ts.len() == 0);
        }
        assert(trim_start(l) == ts);
    }
    let mut b: usize = n;
    let mut done2 = false;
    while !done2 && b > a
        invariant
            cs@ == l,
            n == l.len(),
            a <= b <= n,
            ts == l.subrange(a as int, n as int),
            trim_end(ts) == trim_end(l.subrange(a as int, b as int)),
            done2 ==> b > a && !unicode_whitespace(l[b - 1]),
        decreases b - a, if done2 { 0int } else { 1int },
    {
        if char_is_whitespace(cs[b - 1]) {
            proof {
                assert(l.subrange(a as int, b as int).drop_last() =~= l.subrange(a as int, b - 1));
            }
            b = b - 1;
        } else {
            done2 = true;
        }
    }
    let ghost t = l.subrange(a as int, b as int);
    proof {
        assert(trim(l) == t);
    }
    let pat = str_chars("include!(");
    let m = pat.len();
    if b - a < m {
        return false;
    }
    let mut k: usize = 0;
    while k < m
        invariant
            cs@ == l,
            pat@ == "include!("@,
            m == pat@.len(),
            a + m <= b <= n,
            t == l.subrange(a as int, b as int),
            trim(l) == t,
            l == line@,
            n == l.len(),
            k <= m,
            forall|j: int| 0 <= j < k ==> l[a + j] == pat@[j],
        decreases m - k,
    {
        if cs[a + k] != pat[k] {
            proof {
                assert(t.subrange(0, m as int)[k as int] != pat@[k as int]);
            }
            return false;
        }
        k = k + 1;
    }
    proof {
        assert(t.subrange(0, m as int) =~= pat@);
    }
    true
}

/// The lines of a text that are not `include!` lines.
pub open spec fn kept_lines(ls: Seq<Seq<char>>) -> Seq<Seq<char>> {
    ls.filter(|l: Seq<char>| !is_include_line(l))
}

/// `text` with its `include!` lines dropped, the remaining lines joined by
/// line feeds.
pub fn strip_include_lines(text: &str) -> (r: String)
    ensures
        r@ == join_with(kept_lines(lines(text@)), "\n"@),
{
    let all = split_lines(text);
    let mut kept: Vec<String> = Vec::new();
    let mut i: usize = 0;
    let ghost ls = views(all@);
    proof {
        assert(ls.take(0) =~= Seq::<Seq<char>>::empty());
        assert(kept_lines(ls.take(0)) =~= Seq::<Seq<char>>::empty());
    }
    while i < all.len()
        invariant
            i <= all.len(),
            ls == views(all@),
            views(kept@) == kept_lines(ls.take(i as int)),
        decreases all.len() - i,
    {
        let keep = !include_line(all[i].as_str());
        proof {
            assert(ls.take(i + 1) =~= ls.take(i as int).push(ls[i as int]));
            ls.take(i as int).lemma_filter_push(ls[i as int], |l: Seq<char>| !is_include_line(l));
        }
        if keep {
            let ghost before = kept@;
            kept.push(all[i].clone());
            proof {
                assert(views(kept@) =~= views(before).push(ls[i as int]));
            }
        }
        i = i + 1;
    }
    proof {
        assert(ls.take(i as int) =~= ls);
    }
    join_strings(&kept, "\n")
}

// ─── The embedded std library ───────────────────────────────────────────────

/// The source files of the runtime `std` library: its module file and the
/// parts appended after it, in order.
pub struct StdSources {
    pub mod_rs: String,
    pub str_rs: String,
    pub math_rs: String,
    pub collection_rs: String,
    pub dict_rs: String,
    pub stack_rs: String,
    pub deque_rs: String,
    pub io_rs: String,
}

/// The text of the embedded `std` library: the module file without its
/// `include!` lines, then each part, separated by line feeds.
pub open spec fn std_text(src: StdSources) -> Seq<char> {
    join_with(kept_lines(lines(src.mod_rs@)), "\n"@) + "\n"@ + src.str_rs@ + "\n"@
        + src.math_rs@ + "\n"@ + src.collection_rs@ + "\n"@ + src.dict_rs@ + "\n"@
        + src.stack_rs@ + "\n"@ + src.deque_rs@ + "\n"@ + src.io_rs@
}

/// The embedded text of the official runtime library `name`: only `std` is
/// embedded.
pub fn embedded_rs(name: &str, sources: &StdSources) -> (r: Option<String>)
    ensures
        name@ == "std"@ ==> r is Some && r->0@ == std_text(*sources),
        name@ != "std"@ ==> r is None,
{
    if !str_eq(name, "std") {
        return None;
    }
    let mut out = strip_include_lines(sources.mod_rs.as_str());
    out.append("\n");
    out.append(sources.str_rs.as_str());
    out.append("\n");
    out.append(sources.math_rs.as_str());
    out.append("\n");
    out.append(sources.collection_rs.as_str());
    out.append("\n");
    out.append(sources.dict_rs.as_str());
    out.append("\n");
    out.append(sources.stack_rs.as_str());
    out.append("\n");
    out.append(sources.deque_rs.as_str());
    out.append("\n");
    out.append(sources.io_rs.as_str());
    Some(out)
}

/// The first lines of every generated Rust file, before the builtin runtime.
pub open spec fn preamble_head() -> Seq<char> {
    "// Generated by homunc — Homun to Rust compiler\n\n#![allow(unused_variables, unused_mut, dead_code, unused_imports, unused_macros)]\n#![allow(non_snake_case)]\n\n// ── builtin ────────────────────────────────────────────────\n"@
}

/// The preamble of a generated file: the header, then the builtin runtime
/// `builtin`, then a line feed.
pub fn preamble(builtin: &str) -> (r: String)
    ensures
        r@ == preamble_head() + builtin@ + "\n"@,
{
    let mut out = "// Generated by homunc — Homun to Rust compiler\n\n#![allow(unused_variables, unused_mut, dead_code, unused_imports, unused_macros)]\n#![allow(non_snake_case)]\n\n// ── builtin ────────────────────────────────────────────────\n".to_owned();
    out.append(builtin);
    out.append("\n");
    out
}

// ─── Embedded libraries named by `use` ──────────────────────────────────────

/// The program has a statement `use std` (a one-segment path naming `std`).
pub open spec fn uses_std(ast: Seq<Stmt>) -> bool {
    exists|i: int|
        0 <= i < ast.len() && (#[trigger] ast[i] matches Stmt::Use(path) && path@.len() == 1
            && path@[0]@ == "std"@)
}

/// The embedded library contents that a program's `use` statements call
/// for, keyed by library name: `std` maps to its text when the program uses
/// it, and nothing else is embedded.
pub fn resolve_embedded_uses(ast: &Vec<Stmt>, sources: &StdSources) -> (r: StringHashMap<String>)
    ensures
        uses_std(ast@) ==> r@ == Map::<Seq<char>, String>::empty().insert("std"@, r@["std"@])
            && r@["std"@]@ == std_text(*sources),
        !uses_std(ast@) ==> r@ == Map::<Seq<char>, String>::empty(),
{
    let mut r: StringHashMap<String> = StringHashMap::new();
    let mut i: usize = 0;
    while i < ast.len()
        invariant
            i <= ast.len(),
            uses_std(ast@.take(i as int)) ==> r@ == Map::<Seq<char>, String>::empty().insert(
                "std"@,
                r@["std"@],
            ) && r@["std"@]@ == std_text(*sources),
            !uses_std(ast@.take(i as int)) ==> r@ == Map::<Seq<char>, String>::empty(),
        decreases ast.len() - i,
    {
        let ghost before = r@;
        match &ast[i] {
            Stmt::Use(path) => {
                if path.len() == 1 {
                    match embedded_rs(path[0].as_str(), sources) {
                        Some(content) => {
                            r.insert(path[0].clone(), content);
                        },
                        None => {},
                    }
                }
            },
            _ => {},
        }
        proof {
            let t = ast@.take(i as int);
            let t1 = ast@.take(i + 1);
            assert(t1 =~= t.push(ast@[i as int]));
            if uses_std(t) {
                let w = choose|w: int|
                    0 <= w < t.len() && (#[trigger] t[w] matches Stmt::Use(path) && path@.len()
                        == 1 && path@[0]@ == "std"@);
                assert(t1[w] == t[w]);
            }
            if uses_std(t1) && !uses_std(t) {
                let w = choose|w: int|
                    0 <= w < t1.len() && (#[trigger] t1[w] matches Stmt::Use(path) && path@.len()
                        == 1 && path@[0]@ == "std"@);
                if w < i {
                    assert(t[w] == t1[w]);
                }
            }
            if ast@[i as int] matches Stmt::Use(path) && path@.len() == 1 && path@[0]@ == "std"@ {
                assert(t1[i as int] == ast@[i as int]);
            }
            assert(r@ =~= before || r@ =~= Map::<Seq<char>, String>::empty().insert("std"@, r@["std"@]));
        }
        i = i + 1;
    }
    proof {
        assert(ast@.take(i as int) =~= ast@);
    }
    r
}

} // verus!
