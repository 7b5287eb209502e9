use homun::driver::{assemble_output, lex_error_message, parse_error_message, semantic_errors_report};
use homun::embedded::preamble;

#[test]
fn stage_messages() {
    assert_eq!(lex_error_message("bad char"), "Lex error: bad char");
    assert_eq!(parse_error_message("Expected identifier"), "Parse error: Expected identifier");
}

#[test]
fn semantic_report_lists_each_error() {
    let msgs = vec!["x is immutable".to_string(), "undefined reference: y".to_string()];
    assert_eq!(
        semantic_errors_report(&msgs),
        "Semantic errors:\nx is immutable\nundefined reference: y"
    );
    assert_eq!(semantic_errors_report(&vec![]), "Semantic errors:\n");
}

#[test]
fn output_joins_modules_after_the_preamble() {
    let codes = vec!["fn a() {}".to_string(), "fn b() {}".to_string()];
    let out = assemble_output("B", &codes);
    assert_eq!(out, format!("{}fn a() {{}}\nfn b() {{}}", preamble("B")));
    assert_eq!(assemble_output("B", &vec![]), preamble("B"));
}
