use homun::scope::{
    scope_clone, scope_contains, scope_from_list, scope_insert, scope_new, scope_to_list,
    scope_union,
};

fn s(v: &[&str]) -> Vec<String> {
    v.iter().map(|x| x.to_string()).collect()
}

#[test]
fn insert_then_contains() {
    let mut sc = scope_new();
    assert!(!scope_contains(&sc, "x".to_string()));
    scope_insert(&mut sc, "x".to_string());
    assert!(scope_contains(&sc, "x".to_string()));
    assert!(!scope_contains(&sc, "y".to_string()));
}

#[test]
fn clone_is_independent() {
    let mut a = scope_from_list(s(&["x"]));
    let b = scope_clone(&a);
    scope_insert(&mut a, "y".to_string());
    assert!(scope_contains(&a, "y".to_string()));
    assert!(!scope_contains(&b, "y".to_string()));
    assert!(scope_contains(&b, "x".to_string()));
}

#[test]
fn union_has_both() {
    let a = scope_from_list(s(&["a", "b"]));
    let b = scope_from_list(s(&["b", "c"]));
    let u = scope_union(&a, &b);
    assert_eq!(scope_to_list(&u), s(&["a", "b", "c"]));
}

#[test]
fn list_is_sorted_and_deduplicated() {
    let mut sc = scope_from_list(s(&["zeta", "alpha", "mid", "alpha"]));
    scope_insert(&mut sc, "beta".to_string());
    scope_insert(&mut sc, "zeta".to_string());
    assert_eq!(scope_to_list(&sc), s(&["alpha", "beta", "mid", "zeta"]));
}

#[test]
fn listing_does_not_depend_on_insertion_order() {
    let a = scope_from_list(s(&["c", "a", "b", "ab", "B"]));
    let b = scope_from_list(s(&["B", "ab", "b", "a", "c"]));
    assert_eq!(scope_to_list(&a), scope_to_list(&b));
    let mut expect = s(&["c", "a", "b", "ab", "B"]);
    expect.sort();
    assert_eq!(scope_to_list(&a), expect);
}

#[test]
fn empty_scope_lists_nothing() {
    assert!(scope_to_list(&scope_new()).is_empty());
}
