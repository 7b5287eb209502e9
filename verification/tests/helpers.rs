use homun::helpers::{indent, is_homun_macro, is_upper_first};

#[test]
fn macro_names_are_recognised() {
    for n in ["range", "len", "filter", "map", "reduce", "slice", "dict", "set"] {
        assert!(is_homun_macro(n));
    }
    assert!(!is_homun_macro("print"));
    assert!(!is_homun_macro(""));
    assert!(!is_homun_macro("Range"));
    assert!(homun::helpers_imp::is_homun_macro("dict"));
}

#[test]
fn indent_is_four_spaces_per_level() {
    assert_eq!(indent(0), "");
    assert_eq!(indent(1), "    ");
    assert_eq!(indent(3), " ".repeat(12));
}

#[test]
fn ascii_upper_first() {
    assert!(is_upper_first("Point".to_string()));
    assert!(!is_upper_first("point".to_string()));
    assert!(!is_upper_first("".to_string()));
    assert!(!is_upper_first("Émile".to_string()));
}
