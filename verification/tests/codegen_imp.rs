use homun::ast::Expr;
use homun::codegen_imp::{
    hom_files_contains, rs_content_get, vec_extend, FnSignatures, HomFiles, RsContent,
};

#[test]
fn mutable_param_flags_read_back() {
    let mut s = FnSignatures::new();
    assert!(!s.is_param_mutable_in_call("f".to_string(), 0));
    s.fn_mut_params_insert("f".to_string(), vec![false, true]);
    assert!(!s.is_param_mutable_in_call("f".to_string(), 0));
    assert!(s.is_param_mutable_in_call("f".to_string(), 1));
    assert!(!s.is_param_mutable_in_call("f".to_string(), 2));
    assert!(!s.is_param_mutable_in_call("f".to_string(), -1));
    assert!(!s.is_param_mutable_in_call("g".to_string(), 1));
}

#[test]
fn defaults_read_back() {
    let mut s = FnSignatures::new();
    assert!(s.fn_defaults_get_for("f".to_string()).is_empty());
    s.fn_defaults_insert("f".to_string(), vec![None, Some(Expr::Int(3))]);
    let d = s.fn_defaults_get_for("f".to_string());
    assert_eq!(d.len(), 2);
    assert!(d[0].is_none());
    assert!(matches!(d[1], Some(Expr::Int(3))));
}

#[test]
fn current_mut_ref_params() {
    let mut s = FnSignatures::new();
    s.current_mut_ref_params_add("a".to_string());
    assert!(s.is_mut_ref_param("a".to_string()));
    assert!(!s.is_mut_ref_param("b".to_string()));
    s.current_mut_ref_params_clear();
    assert!(!s.is_mut_ref_param("a".to_string()));
}

#[test]
fn rs_content_lookup() {
    let mut m = RsContent::new();
    m.insert("engine".to_string(), "pub fn f() {}".to_string());
    assert_eq!(rs_content_get(m, "engine".to_string()), Some("pub fn f() {}".to_string()));
    let m2 = RsContent::new();
    assert_eq!(rs_content_get(m2, "engine".to_string()), None);
}

#[test]
fn hom_files_lookup() {
    let mut s = HomFiles::new();
    s.insert("util".to_string());
    assert!(hom_files_contains(s, "util".to_string()));
    assert!(!hom_files_contains(HomFiles::new(), "util".to_string()));
}

#[test]
fn generic_extend() {
    assert_eq!(vec_extend(vec![1, 2], vec![3, 4]), vec![1, 2, 3, 4]);
}
