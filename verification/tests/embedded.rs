use homun::ast::Stmt;
use homun::embedded::{
    embedded_rs, include_line, preamble, resolve_embedded_uses, split_lines,
    strip_include_lines, StdSources,
};

fn sources() -> StdSources {
    StdSources {
        mod_rs: "// std\ninclude!(\"str.rs\");\n  include!(\"math.rs\")\nfn keep() {}\n".to_string(),
        str_rs: "S".to_string(),
        math_rs: "M".to_string(),
        collection_rs: "C".to_string(),
        dict_rs: "D".to_string(),
        stack_rs: "K".to_string(),
        deque_rs: "Q".to_string(),
        io_rs: "I".to_string(),
    }
}

#[test]
fn lines_match_str_lines() {
    for t in ["", "a", "a\n", "a\nb", "a\r\nb\r\n", "\n\n", "x\ry\n", "end\r", "\r\n"] {
        let expect: Vec<String> = t.lines().map(|l| l.to_string()).collect();
        assert_eq!(split_lines(t), expect, "text {:?}", t);
    }
}

#[test]
fn include_lines_are_recognised() {
    assert!(include_line("include!(\"a.rs\");"));
    assert!(include_line("   include!(x)"));
    assert!(include_line("\tinclude!(  "));
    assert!(!include_line("// include!(x)"));
    assert!(!include_line("include!"));
    assert!(!include_line(""));
}

#[test]
fn stripping_matches_the_filter() {
    let t = sources().mod_rs;
    let expect: String = t
        .lines()
        .filter(|l| !l.trim().starts_with("include!("))
        .collect::<Vec<_>>()
        .join("\n");
    assert_eq!(strip_include_lines(&t), expect);
    assert_eq!(strip_include_lines(&t), "// std\nfn keep() {}");
}

#[test]
fn std_is_embedded() {
    let out = embedded_rs("std", &sources()).unwrap();
    assert_eq!(out, "// std\nfn keep() {}\nS\nM\nC\nD\nK\nQ\nI");
}

#[test]
fn other_libraries_are_not_embedded() {
    assert!(embedded_rs("engine", &sources()).is_none());
    assert!(embedded_rs("", &sources()).is_none());
}

#[test]
fn preamble_wraps_the_builtin() {
    let p = preamble("BUILTIN");
    assert!(p.starts_with("// Generated by homunc — Homun to Rust compiler\n\n#![allow("));
    assert!(p.ends_with("// ── builtin ────────────────────────────────────────────────\nBUILTIN\n"));
}

#[test]
fn use_std_is_resolved() {
    let ast = vec![
        Stmt::Use(vec!["engine".to_string()]),
        Stmt::Use(vec!["std".to_string()]),
        Stmt::Use(vec!["std".to_string(), "io".to_string()]),
    ];
    let m = resolve_embedded_uses(&ast, &sources());
    assert_eq!(m.len(), 1);
    assert!(m.contains_key("std"));
    assert!(!m.contains_key("engine"));
    let none = resolve_embedded_uses(&vec![Stmt::Use(vec!["engine".to_string()])], &sources());
    assert_eq!(none.len(), 0);
}

#[test]
fn trimming_uses_unicode_whitespace() {
    let mut cs: Vec<char> = (0u32..0x3100).filter_map(char::from_u32).collect();
    cs.extend(['\u{feff}', '\u{10ffff}', '\u{205f}', '\u{3000}']);
    for c in cs {
        let lead = format!("{}include!(", c);
        let trail = format!("include!({}", c);
        assert_eq!(include_line(&lead), c.is_whitespace(), "leading {:?}", c);
        assert_eq!(include_line(&trail), trail.trim().starts_with("include!("), "trailing {:?}", c);
        assert_eq!(include_line(&lead), lead.trim().starts_with("include!("), "std trim {:?}", c);
    }
}
