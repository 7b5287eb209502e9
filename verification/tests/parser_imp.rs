use homun::ast::{Expr, Pos, Stmt, Token, TokenKind, TypeExpr};
use homun::parser_imp::{
    mk_expr_char_from_str, mk_expr_for, mk_expr_lambda, mk_expr_lambda_generics, mk_expr_slice,
    mk_expr_while, mk_variantdef_multi, mk_variantdef_positional, no_else, some_else, to_i64,
    token_kind_str, ParserState,
};

fn tok(kind: TokenKind, line: i32) -> Token {
    Token { kind, pos: Pos { line, col: 1 } }
}

fn tokens() -> Vec<Token> {
    vec![
        tok(TokenKind::Ident("x".to_string()), 1),
        tok(TokenKind::Bind, 1),
        tok(TokenKind::Int(10), 2),
        tok(TokenKind::Eof, 2),
    ]
}

#[test]
fn kind_names_match_debug_output() {
    let kinds = vec![
        TokenKind::Ident("a".to_string()),
        TokenKind::Int(3),
        TokenKind::Str("s".to_string()),
        TokenKind::Char('c'),
        TokenKind::Bool(true),
        TokenKind::LBrace,
        TokenKind::DoubleColon,
        TokenKind::Eof,
    ];
    for k in kinds {
        let debug = format!("{:?}", k);
        let expected = debug.split('(').next().unwrap().to_string();
        assert_eq!(token_kind_str(&k), expected);
    }
}

#[test]
fn widening() {
    assert_eq!(to_i64(-5), -5i64);
    assert_eq!(to_i64(i32::MAX), i32::MAX as i64);
}

#[test]
fn fresh_state() {
    let p = ParserState::new(tokens());
    assert_eq!(p.pos, 0);
    assert!(!p.has_err_internal());
    assert_eq!(p.gensym_counter, 0);
}

#[test]
fn peek_and_advance() {
    let mut p = ParserState::new(tokens());
    assert!(matches!(p.ps_peek_token().kind, TokenKind::Ident(ref s) if s == "x"));
    p.advance_internal();
    assert!(matches!(p.peek_token_internal().kind, TokenKind::Bind));
    p.advance_internal();
    p.advance_internal();
    p.advance_internal();
    p.advance_internal();
    assert_eq!(p.pos, 4);
    assert!(matches!(p.ps_peek_token().kind, TokenKind::Eof));
}

#[test]
fn same_line() {
    let mut p = ParserState::new(tokens());
    assert!(!p.ps_same_line());
    p.advance_internal();
    assert!(p.ps_same_line());
    p.advance_internal();
    assert!(!p.ps_same_line());
    p.advance_internal();
    assert!(p.ps_same_line());
    p.err = "boom".to_string();
    assert!(!p.ps_same_line());
}

#[test]
fn next_kind() {
    let mut p = ParserState::new(tokens());
    assert_eq!(p.ps_peek_next_kind(), "Bind");
    p.advance_internal();
    p.advance_internal();
    assert_eq!(p.ps_peek_next_kind(), "Eof");
    p.advance_internal();
    assert_eq!(p.ps_peek_next_kind(), "Eof");
    let mut q = ParserState::new(tokens());
    q.err = "bad".to_string();
    assert_eq!(q.ps_peek_next_kind(), "Eof");
}

#[test]
fn clearing_the_error() {
    let mut p = ParserState::new(tokens());
    p.err = "bad".to_string();
    assert!(p.has_err_internal());
    p.ps_clear_err();
    assert!(!p.has_err_internal());
}

#[test]
fn outcome_of_a_parse() {
    let p = ParserState::new(tokens());
    let ok = p.into_result(vec![Stmt::Expr(Expr::Int(1))]);
    assert_eq!(ok.unwrap().len(), 1);
    let mut q = ParserState::new(tokens());
    q.err = "Expected identifier".to_string();
    assert_eq!(q.into_result(vec![]).unwrap_err(), "Expected identifier");
}

#[test]
fn char_from_str() {
    assert!(matches!(mk_expr_char_from_str("é!".to_string()), Expr::Char('é')));
    assert!(matches!(mk_expr_char_from_str(String::new()), Expr::Char('\0')));
}

#[test]
fn constructors_build_the_named_node() {
    let s = mk_expr_slice(Expr::Ident("a".to_string()), None, Some(Expr::Int(2)), None);
    assert!(matches!(s, Expr::Slice(_, None, Some(ref t), None) if matches!(**t, Expr::Int(2))));
    let l = mk_expr_lambda(vec![], None, None, vec![], Expr::Unit);
    assert!(matches!(l, Expr::Lambda { ref generics, .. } if generics.is_empty()));
    let lg = mk_expr_lambda_generics(vec!["T".to_string()], vec![], None, None, vec![], Expr::Unit);
    assert!(matches!(lg, Expr::Lambda { ref generics, .. } if generics.len() == 1));
    let f = mk_expr_for("i".to_string(), Expr::Int(3), vec![], Some(Expr::Int(1)));
    assert!(matches!(f, Expr::For(ref v, _, _, Some(_)) if v == "i"));
    let w = mk_expr_while(Expr::Bool(true), vec![], None);
    assert!(matches!(w, Expr::While(_, _, None)));
    assert!(some_else(vec![], Expr::Unit).is_some());
    assert!(no_else().is_none());
}

#[test]
fn variant_fields() {
    let v = mk_variantdef_multi(
        "Point".to_string(),
        vec!["x".to_string(), "".to_string(), "z".to_string()],
        vec![TypeExpr::Name("int".to_string()), TypeExpr::Name("str".to_string())],
    );
    assert_eq!(v.name, "Point");
    assert_eq!(v.fields.len(), 2);
    assert_eq!(v.fields[0].0, Some("x".to_string()));
    assert_eq!(v.fields[1].0, None);
    assert!(matches!(&v.fields[1].1, TypeExpr::Name(n) if n == "str"));
    let p = mk_variantdef_positional("Pair".to_string(), vec![TypeExpr::Name("int".to_string())]);
    assert_eq!(p.fields.len(), 1);
    assert!(p.fields[0].0.is_none());
}
