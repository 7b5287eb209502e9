use homun::homun_std::{homun_concat, homun_range, homun_slice, str_of, HomunIndex, HomunLen};
use std::collections::{HashMap, HashSet};

fn x() -> Vec<i32> {
    vec![10, 20, 30, 40, 50]
}

const OPEN: i64 = i64::MAX;

#[test]
fn slice_prefix() {
    assert_eq!(homun_slice(&x(), 0, 3, 1), vec![10, 20, 30]);
}

#[test]
fn slice_middle() {
    assert_eq!(homun_slice(&x(), 1, 4, 1), vec![20, 30, 40]);
}

#[test]
fn slice_every_other() {
    assert_eq!(homun_slice(&x(), 0, OPEN, 2), vec![10, 30, 50]);
}

#[test]
fn slice_reversed() {
    assert_eq!(homun_slice(&x(), 0, OPEN, -1), vec![50, 40, 30, 20, 10]);
}

#[test]
fn slice_from_index() {
    assert_eq!(homun_slice(&x(), 1, OPEN, 1), vec![20, 30, 40, 50]);
}

#[test]
fn slice_negative_bounds() {
    assert_eq!(homun_slice(&x(), -2, OPEN, 1), vec![40, 50]);
    assert_eq!(homun_slice(&x(), 0, -1, 1), vec![10, 20, 30, 40]);
}

#[test]
fn slice_out_of_range_is_clamped() {
    assert_eq!(homun_slice(&x(), -100, 100, 1), vec![10, 20, 30, 40, 50]);
    assert_eq!(homun_slice(&x(), 4, 2, 1), Vec::<i32>::new());
}

#[test]
fn slice_zero_step_is_empty() {
    assert_eq!(homun_slice(&x(), 0, OPEN, 0), Vec::<i32>::new());
}

#[test]
fn slice_backward_with_bounds_follows_python() {
    // Python: x[3::-1] == [40, 30, 20, 10]; x[:1:-1] == [50, 40, 30]; x[3:0:-1] == [40, 30, 20]
    assert_eq!(homun_slice(&x(), 3, OPEN, -1), vec![40, 30, 20, 10]);
    assert_eq!(homun_slice(&x(), 0, 1, -1), vec![50, 40, 30]);
    assert_eq!(homun_slice(&x(), 3, 0, -1), vec![40, 30, 20]);
    assert_eq!(homun_slice(&x(), -1, OPEN, -2), vec![50, 30, 10]);
}

#[test]
fn slice_large_step() {
    assert_eq!(homun_slice(&x(), 0, OPEN, i64::MAX), vec![10]);
    assert_eq!(homun_slice(&x(), 0, OPEN, -i64::MAX), vec![50]);
}

#[test]
fn concat_keeps_order() {
    assert_eq!(homun_concat(vec![1, 2], vec![3]), vec![1, 2, 3]);
    assert_eq!(homun_concat(Vec::<i32>::new(), vec![7]), vec![7]);
}

#[test]
fn str_of_formats() {
    assert_eq!(str_of(42), "42");
    assert_eq!(str_of("hi"), "hi");
}

#[test]
fn len_of_collections() {
    assert_eq!(vec![1, 2, 3].homun_len(), 3);
    let mut m: HashMap<i32, i32> = HashMap::new();
    m.insert(1, 2);
    assert_eq!(m.homun_len(), 1);
    let mut s: HashSet<i32> = HashSet::new();
    s.insert(5);
    s.insert(5);
    assert_eq!(s.homun_len(), 1);
    assert_eq!(String::from("héllo").homun_len(), 6);
    assert_eq!("abc".homun_len(), 3);
}

#[test]
fn index_with_negative_counts_from_end() {
    let v = x();
    assert_eq!(v.homun_idx(0), 10);
    assert_eq!(v.homun_idx(2), 30);
    assert_eq!(v.homun_idx(-1), 50);
    assert_eq!(v.homun_idx(-5), 10);
}

#[test]
fn index_into_int_keyed_dict() {
    let mut m: HashMap<i32, String> = HashMap::new();
    m.insert(3, "three".to_string());
    assert_eq!(m.homun_idx(3), Some("three".to_string()));
    assert_eq!(m.homun_idx(4), None);
}

#[test]
fn index_into_string_keyed_dict() {
    let mut m: HashMap<String, i32> = HashMap::new();
    m.insert("a".to_string(), 1);
    m.insert("b".to_string(), 2);
    assert_eq!(m.homun_idx("b"), Some(2));
    assert_eq!(m.homun_idx("unknown"), None);
}

#[test]
fn range_examples() {
    assert_eq!(homun_range(0, 5, 1), vec![0, 1, 2, 3, 4]);
    assert_eq!(homun_range(3, 7, 1), vec![3, 4, 5, 6]);
    assert_eq!(homun_range(1, 10, 2), vec![1, 3, 5, 7, 9]);
    assert_eq!(homun_range(10, 0, -1), vec![10, 9, 8, 7, 6, 5, 4, 3, 2, 1]);
    assert_eq!(homun_range(0, 100, 25), vec![0, 25, 50, 75]);
}

#[test]
fn range_edges() {
    assert_eq!(homun_range(0, 5, 0), Vec::<i64>::new());
    assert_eq!(homun_range(5, 0, 1), Vec::<i64>::new());
    assert_eq!(homun_range(i64::MAX - 1, i64::MAX, 5), vec![i64::MAX - 1]);
    assert_eq!(homun_range(i64::MIN + 1, i64::MIN, i64::MIN), vec![i64::MIN + 1]);
}
