use homun::ast::{Expr, Param, Stmt, TypeExpr};
use homun::codegen_helpers::{
    expr_break_value, expr_for_final, expr_if_else_expr, expr_if_else_stmts, expr_if_has_else,
    expr_is_lambda, expr_lambda_final, expr_lambda_generics, expr_lambda_params,
    expr_lambda_ret_ty, expr_lambda_stmts, expr_lambda_void_mark, expr_range_end,
    expr_range_start, expr_range_step, expr_slice_from, expr_slice_step, expr_slice_to,
    expr_while_final, generics_str, ind, is_homun_macro, is_upper_first, vec_extend_strings,
    CodegenRegistry,
};

fn num(n: i64) -> Expr {
    Expr::Int(n)
}

fn is_int(e: &Expr, n: i64) -> bool {
    matches!(e, Expr::Int(m) if *m == n)
}

#[test]
fn ind_is_four_spaces_per_level() {
    assert_eq!(ind(0), "");
    assert_eq!(ind(2), "        ");
}

#[test]
fn extend_strings_appends() {
    let r = vec_extend_strings(vec!["a".to_string()], vec!["b".to_string(), "c".to_string()]);
    assert_eq!(r, vec!["a", "b", "c"]);
}

#[test]
fn codegen_ascii_upper_first() {
    assert!(is_upper_first("Some".to_string()));
    assert!(is_upper_first("Foo".to_string()));
    assert!(!is_upper_first("foo".to_string()));
    assert!(!is_upper_first("Émile".to_string()));
    assert!(!is_upper_first("none".to_string()));
    assert!(!is_upper_first("".to_string()));
}

#[test]
fn macro_name_from_string() {
    assert!(is_homun_macro("range".to_string()));
    assert!(!is_homun_macro("push".to_string()));
}

#[test]
fn generics_clause() {
    assert_eq!(generics_str(vec![]), "");
    assert_eq!(generics_str(vec!["T: Clone".to_string()]), "<T: Clone>");
    assert_eq!(
        generics_str(vec!["T: Clone".to_string(), "U: Clone".to_string()]),
        "<T: Clone, U: Clone>"
    );
}

#[test]
fn registry_recursive_types() {
    let mut r = CodegenRegistry::new();
    assert!(!r.is_self_recursive_type("Tree".to_string()));
    r.register_recursive_type("Tree".to_string());
    assert!(r.is_self_recursive_type("Tree".to_string()));
    assert!(!r.is_self_recursive_type("List".to_string()));
    r.clear_recursive_types();
    assert!(!r.is_self_recursive_type("Tree".to_string()));
}

#[test]
fn registry_variant_fields_read_back() {
    let mut r = CodegenRegistry::new();
    assert!(!r.variant_field_types_known("Expr.Add".to_string()));
    assert!(r.variant_field_types_get("Expr.Add".to_string()).is_empty());
    r.register_variant_field_types(
        "Expr.Add".to_string(),
        vec![TypeExpr::Name("Expr".to_string()), TypeExpr::Name("int".to_string())],
    );
    assert!(r.variant_field_types_known("Expr.Add".to_string()));
    let fields = r.variant_field_types_get("Expr.Add".to_string());
    assert_eq!(fields.len(), 2);
    assert!(matches!(&fields[1], TypeExpr::Name(n) if n == "int"));
    r.register_variant_field_types("Expr.Add".to_string(), vec![]);
    assert!(r.variant_field_types_get("Expr.Add".to_string()).is_empty());
}

#[test]
fn registry_thread_locals() {
    let mut r = CodegenRegistry::new();
    r.register_thread_local_var("counter".to_string());
    assert!(r.is_thread_local_var("counter".to_string()));
    assert!(!r.is_thread_local_var("other".to_string()));
    r.clear_thread_local_vars();
    assert!(!r.is_thread_local_var("counter".to_string()));
}

#[test]
fn lambda_detection() {
    assert!(!expr_is_lambda(num(1)));
    let l = Expr::Lambda {
        generics: vec!["T".to_string()],
        params: vec![Param { name: "a".to_string(), ty: None, is_mut: false }],
        ret_ty: Some(TypeExpr::Name("int".to_string())),
        void_mark: None,
        stmts: vec![Stmt::Expr(num(0))],
        final_expr: Box::new(num(7)),
    };
    assert!(expr_is_lambda(l));
}

fn lambda() -> Expr {
    Expr::Lambda {
        generics: vec!["T".to_string()],
        params: vec![Param { name: "a".to_string(), ty: None, is_mut: true }],
        ret_ty: Some(TypeExpr::Name("int".to_string())),
        void_mark: None,
        stmts: vec![Stmt::Expr(num(0)), Stmt::Expr(num(1))],
        final_expr: Box::new(num(7)),
    }
}

#[test]
fn lambda_parts() {
    assert_eq!(expr_lambda_generics(lambda()), vec!["T".to_string()]);
    let ps = expr_lambda_params(lambda());
    assert_eq!(ps.len(), 1);
    assert_eq!(ps[0].name, "a");
    assert!(ps[0].is_mut);
    assert!(matches!(expr_lambda_ret_ty(lambda()), Some(TypeExpr::Name(n)) if n == "int"));
    assert!(expr_lambda_void_mark(lambda()).is_none());
    assert_eq!(expr_lambda_stmts(lambda()).len(), 2);
    assert!(is_int(&expr_lambda_final(lambda()), 7));
}

#[test]
fn slice_parts() {
    let s = || Expr::Slice(Box::new(num(0)), Some(Box::new(num(1))), None, Some(Box::new(num(-1))));
    assert!(is_int(&expr_slice_from(s()).unwrap(), 1));
    assert!(expr_slice_to(s()).is_none());
    assert!(is_int(&expr_slice_step(s()).unwrap(), -1));
}

#[test]
fn if_parts() {
    let with_else = || {
        Expr::If(
            Box::new(Expr::Bool(true)),
            vec![],
            Box::new(num(1)),
            Some((vec![Stmt::Expr(num(5))], Box::new(num(2)))),
        )
    };
    let without = Expr::If(Box::new(Expr::Bool(true)), vec![], Box::new(num(1)), None);
    assert!(expr_if_has_else(with_else()));
    assert!(!expr_if_has_else(without));
    assert_eq!(expr_if_else_stmts(with_else()).len(), 1);
    assert!(is_int(&expr_if_else_expr(with_else()), 2));
}

#[test]
fn loop_and_break_parts() {
    let f = Expr::For("i".to_string(), Box::new(num(3)), vec![], Some(Box::new(num(9))));
    assert!(is_int(&expr_for_final(f).unwrap(), 9));
    let w = Expr::While(Box::new(Expr::Bool(false)), vec![], None);
    assert!(expr_while_final(w).is_none());
    assert!(is_int(&expr_break_value(Expr::Break(Some(Box::new(num(4))))).unwrap(), 4));
    assert!(expr_break_value(Expr::Break(None)).is_none());
}

#[test]
fn range_parts() {
    let r = || Expr::Range(Some(Box::new(num(1))), Some(Box::new(num(10))), None);
    assert!(is_int(&expr_range_start(r()).unwrap(), 1));
    assert!(is_int(&expr_range_end(r()).unwrap(), 10));
    assert!(expr_range_step(r()).is_none());
}
