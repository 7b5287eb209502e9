//! What the compiler driver reports and writes: the messages for failed
//! stages, and the output file assembled from the compiled modules.
use vstd::prelude::*;
use crate::embedded::{preamble, preamble_head};
use crate::text::{join_strings, join_with, views};

verus! {

/// The message for a source that failed to lex.
pub fn lex_error_message(e: &str) -> (r: String)
    ensures
        r@ == "Lex error: "@ + e@,
{
    let mut r = "Lex error: ".to_owned();
    r.append(e);
    r
}

/// The message for a token stream that failed to parse.
pub fn parse_error_message(e: &str) -> (r: String)
    ensures
        r@ == "Parse error: "@ + e@,
{
    let mut r = "Parse error: ".to_owned();
    r.append(e);
    r
}

/// The report for a program that failed semantic analysis: a heading, then
/// one error message per line.
pub fn semantic_errors_report(msgs: &Vec<String>) -> (r: String)
    ensures
        r@ == "Semantic errors:\n"@ + join_with(views(msgs@), "\n"@),
{
    let mut r = "Semantic errors:\n".to_owned();
    let body = join_strings(msgs, "\n");
    r.append(body.as_str());
    r
}

/// The generated file for a multi-file program: the preamble with the
/// builtin runtime, then the compiled modules in order, separated by line
/// feeds.
pub fn assemble_output(builtin: &str, codes: &Vec<String>) -> (r: String)
    ensures
        r@ == preamble_head() + builtin@ + "\n"@ + join_with(views(codes@), "\n"@),
{
    let mut r = preamble(builtin);
    let body = join_strings(codes, "\n");
    r.append(body.as_str());
    r
}

} // verus!
