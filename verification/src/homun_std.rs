//! Runtime helpers that generated Rust programs call: Python-style slicing,
//! list concatenation, `str(x)`, and the `len` / indexing traits.
use vstd::prelude::*;
use std::collections::{HashMap, HashSet};

verus! {

/// Python-style index normalisation: a negative index counts from the end,
/// and the result is clamped into `0..=len`.
pub open spec fn norm_index(i: int, len: int) -> int {
    let j = if i < 0 { len + i } else { i };
    if j < 0 {
        0
    } else if j > len {
        len
    } else {
        j
    }
}

/// How far `a` lies above `b`, or zero.
pub open spec fn gap(a: int, b: int) -> nat {
    if a > b {
        (a - b) as nat
    } else {
        0
    }
}

/// Indices `i, i + step, i + 2*step, ...` that stay below `end` (`step > 0`).
pub open spec fn stride_up(i: int, end: int, step: int) -> Seq<int>
    decreases gap(end, i),
{
    if step <= 0 || i >= end {
        Seq::empty()
    } else {
        seq![i].add(stride_up(i + step, end, step))
    }
}

/// Indices `hi - 1, hi - 1 - m, ...` that stay at or above `lo` (`m > 0`).
pub open spec fn stride_down(hi: int, lo: int, m: int) -> Seq<int>
    decreases gap(hi, lo),
{
    if m <= 0 || hi <= lo {
        Seq::empty()
    } else {
        seq![hi - 1].add(stride_down(hi - m, lo, m))
    }
}

/// The position one past where a backward walk starts or stops: Python's
/// rule for a bound of a negative-step slice (a negative bound counts from
/// the end), moved one up and clamped into `0..=len`.
pub open spec fn down_bound(i: int, len: int) -> int {
    let j = if i < 0 { len + i } else { i };
    if j + 1 < 0 {
        0
    } else if j + 1 > len {
        len
    } else {
        j + 1
    }
}

/// The positions of `v` that `v[start:end:step]` picks, in order, following
/// Python's slicing. Generated code passes `start == 0` for an omitted start
/// and `end == i64::MAX` for an omitted end. A positive step walks forward
/// from the normalised start up to, not including, the normalised end. A
/// negative step walks backward from `start` (from the last element when it
/// is omitted) down to, not including, `end` (through the first element when
/// it is omitted). A zero step selects nothing.
pub open spec fn slice_indices(len: int, start: int, end: int, step: int) -> Seq<int> {
    if step > 0 {
        stride_up(norm_index(start, len), norm_index(end, len), step)
    } else if step < 0 {
        let lo = if end == i64::MAX { 0 } else { down_bound(end, len) };
        let hi = if start == 0 { len } else { down_bound(start, len) };
        stride_down(hi, lo, -step)
    } else {
        Seq::empty()
    }
}

proof fn lemma_stride_up_bounds(i: int, end: int, step: int)
    requires
        0 <= i,
    ensures
        forall|k: int|
            0 <= k < stride_up(i, end, step).len() ==> i <= #[trigger] stride_up(i, end, step)[k]
                < end,
    decreases gap(end, i),
{
    if step > 0 && i < end {
        lemma_stride_up_bounds(i + step, end, step);
        let rest = stride_up(i + step, end, step);
        assert forall|k: int| 0 <= k < stride_up(i, end, step).len() implies i
            <= #[trigger] stride_up(i, end, step)[k] < end by {
            if k > 0 {
                assert(stride_up(i, end, step)[k] == rest[k - 1]);
            }
        }
    }
}

proof fn lemma_stride_down_bounds(hi: int, lo: int, m: int)
    requires
        0 <= lo,
    ensures
        forall|k: int|
            0 <= k < stride_down(hi, lo, m).len() ==> lo <= #[trigger] stride_down(hi, lo, m)[k]
                < hi,
    decreases gap(hi, lo),
{
    if m > 0 && hi > lo {
        lemma_stride_down_bounds(hi - m, lo, m);
        let rest = stride_down(hi - m, lo, m);
        assert forall|k: int| 0 <= k < stride_down(hi, lo, m).len() implies lo
            <= #[trigger] stride_down(hi, lo, m)[k] < hi by {
            if k > 0 {
                assert(stride_down(hi, lo, m)[k] == rest[k - 1]);
            }
        }
    }
}

/// Every index that a slice picks lies inside the sequence.
pub proof fn lemma_slice_indices_in_bounds(len: int, start: int, end: int, step: int)
    requires
        0 <= len,
    ensures
        forall|k: int|
            0 <= k < slice_indices(len, start, end, step).len() ==> 0
                <= #[trigger] slice_indices(len, start, end, step)[k] < len,
{
    if step > 0 {
        lemma_stride_up_bounds(norm_index(start, len), norm_index(end, len), step);
    } else if step < 0 {
        let lo = if end == i64::MAX { 0 } else { down_bound(end, len) };
        let hi = if start == 0 { len } else { down_bound(start, len) };
        lemma_stride_down_bounds(hi, lo, -step);
    }
}

fn norm_exec(i: i64, len: i64) -> (r: i64)
    requires
        0 <= len,
    ensures
        r == norm_index(i as int, len as int),
        0 <= r <= len,
{
    let j = if i < 0 { len + i } else { i };
    if j < 0 {
        0
    } else if j > len {
        len
    } else {
        j
    }
}

fn down_bound_exec(i: i64, len: i64) -> (r: i64)
    requires
        0 <= len,
    ensures
        r == down_bound(i as int, len as int),
        0 <= r <= len,
{
    let j = if i < 0 { len + i } else { i };
    if j < 0 {
        0
    } else if j >= len {
        len
    } else {
        j + 1
    }
}

/// Slicing `v[start:end:step]` as generated code performs it: each picked
/// element is a clone of the element at the corresponding index of
/// `slice_indices`. Out-of-range bounds are clamped, a zero step gives an
/// empty list.
pub fn homun_slice<T: Clone>(v: &Vec<T>, start: i64, end: i64, step: i64) -> (r: Vec<T>)
    requires
        v.len() <= i64::MAX,
        step != i64::MIN,
    ensures
        r.len() == slice_indices(v.len() as int, start as int, end as int, step as int).len(),
        forall|k: int|
            0 <= k < r.len() ==> cloned::<T>(
                v@[slice_indices(v.len() as int, start as int, end as int, step as int)[k]],
                #[trigger] r@[k],
            ),
{
    let len = v.len() as i64;
    let ghost idx = slice_indices(len as int, start as int, end as int, step as int);
    let mut r: Vec<T> = Vec::new();
    if step > 0 {
        let s = norm_exec(start, len);
        let e = norm_exec(end, len);
        let mut i = s;
        let ghost mut done: Seq<int> = Seq::empty();
        proof {
            lemma_stride_up_bounds(s as int, e as int, step as int);
        }
        while i < e
            invariant
                0 <= s <= i,
                e <= len,
                len == v.len(),
                step > 0,
                idx == stride_up(s as int, e as int, step as int),
                idx == done + stride_up(i as int, e as int, step as int),
                r.len() == done.len(),
                forall|k: int| 0 <= k < r.len() ==> cloned::<T>(v@[done[k]], #[trigger] r@[k]),
                forall|k: int| 0 <= k < done.len() ==> 0 <= #[trigger] done[k] < len,
            decreases e - i,
        {
            let x = v[i as usize].clone();
            r.push(x);
            proof {
                assert(stride_up(i as int, e as int, step as int) == seq![i as int].add(
                    stride_up(i + step, e as int, step as int),
                ));
                assert(done.push(i as int) + stride_up(i + step, e as int, step as int) =~= done
                    + stride_up(i as int, e as int, step as int));
                done = done.push(i as int);
            }
            if step >= e - i {
                proof {
                    assert(stride_up(i + step, e as int, step as int) =~= Seq::<int>::empty());
                    assert(stride_up(e as int, e as int, step as int) =~= Seq::<int>::empty());
                }
                i = e;
            } else {
                i = i + step;
            }
        }
        proof {
            assert(stride_up(i as int, e as int, step as int) =~= Seq::<int>::empty());
            assert(idx =~= done);
        }
    } else if step < 0 {
        let lo = if end == i64::MAX {
            0
        } else {
            down_bound_exec(end, len)
        };
        let hi = if start == 0 {
            len
        } else {
            down_bound_exec(start, len)
        };
        let m = -step;
        let mut i = hi;
        let ghost mut done: Seq<int> = Seq::empty();
        while i > lo
            invariant
                0 <= lo,
                i <= hi <= len,
                len == v.len(),
                m > 0,
                idx == stride_down(hi as int, lo as int, m as int),
                idx == done + stride_down(i as int, lo as int, m as int),
                r.len() == done.len(),
                forall|k: int| 0 <= k < r.len() ==> cloned::<T>(v@[done[k]], #[trigger] r@[k]),
            decreases i - lo,
        {
            let x = v[(i - 1) as usize].clone();
            r.push(x);
            proof {
                assert(done.push(i - 1) + stride_down(i - m, lo as int, m as int) =~= done
                    + stride_down(i as int, lo as int, m as int));
                done = done.push(i - 1);
            }
            if m >= i - lo {
                proof {
                    assert(stride_down(i - m, lo as int, m as int) =~= Seq::<int>::empty());
                    assert(stride_down(lo as int, lo as int, m as int) =~= Seq::<int>::empty());
                }
                i = lo;
            } else {
                i = i - m;
            }
        }
        proof {
            assert(stride_down(i as int, lo as int, m as int) =~= Seq::<int>::empty());
            assert(idx =~= done);
        }
    }
    r
}

proof fn lemma_stride_up_unit(i: int, len: int)
    requires
        0 <= i <= len,
    ensures
        stride_up(i, len, 1) =~= Seq::new((len - i) as nat, |k: int| i + k),
    decreases len - i,
{
    if i < len {
        lemma_stride_up_unit(i + 1, len);
        assert(stride_up(i, len, 1) =~= seq![i].add(stride_up(i + 1, len, 1)));
    }
}

proof fn lemma_stride_down_unit(hi: int)
    requires
        0 <= hi,
    ensures
        stride_down(hi, 0, 1) =~= Seq::new(hi as nat, |k: int| hi - 1 - k),
    decreases hi,
{
    if hi > 0 {
        lemma_stride_down_unit(hi - 1);
        assert(stride_down(hi, 0, 1) =~= seq![hi - 1].add(stride_down(hi - 1, 0, 1)));
    }
}

/// `v[::1]`, that is start 0, open end and step 1, picks every position in
/// order: the slice is a copy of the whole list.
pub proof fn law_full_slice_keeps_order(len: int)
    requires
        0 <= len <= i64::MAX,
    ensures
        slice_indices(len, 0, i64::MAX as int, 1) =~= Seq::new(len as nat, |k: int| k),
{
    lemma_stride_up_unit(0, len);
}

/// `v[::-1]`, that is start 0, open end and step -1, picks every position
/// from the last to the first: the slice is the reversed list.
pub proof fn law_reverse_slice(len: int)
    requires
        0 <= len <= i64::MAX,
    ensures
        slice_indices(len, 0, i64::MAX as int, -1) =~= Seq::new(len as nat, |k: int| len - 1 - k),
{
    lemma_stride_down_unit(len);
}

proof fn lemma_stride_up_shape(i: int, end: int, step: int)
    requires
        step > 0,
    ensures
        forall|k: int|
            0 <= k < stride_up(i, end, step).len() ==> #[trigger] stride_up(i, end, step)[k] == i
                + k * step && stride_up(i, end, step)[k] < end,
        i + stride_up(i, end, step).len() * step >= end,
    decreases gap(end, i),
{
    let s = stride_up(i, end, step);
    if i < end {
        lemma_stride_up_shape(i + step, end, step);
        let t = stride_up(i + step, end, step);
        assert forall|k: int| 0 <= k < s.len() implies #[trigger] s[k] == i + k * step && s[k]
            < end by {
            if k > 0 {
                assert(s[k] == t[k - 1]);
                assert((i + step) + (k - 1) * step == i + k * step) by (nonlinear_arith);
            }
        }
        assert((i + step) + t.len() * step == i + (t.len() + 1) * step) by (nonlinear_arith);
    }
}

proof fn lemma_count_down_shape(i: int, end: int, m: int)
    requires
        m > 0,
    ensures
        forall|k: int|
            0 <= k < count_down(i, end, m).len() ==> #[trigger] count_down(i, end, m)[k] == i - k
                * m && count_down(i, end, m)[k] > end,
        i - count_down(i, end, m).len() * m <= end,
    decreases gap(i, end),
{
    let s = count_down(i, end, m);
    if i > end {
        lemma_count_down_shape(i - m, end, m);
        let t = count_down(i - m, end, m);
        assert forall|k: int| 0 <= k < s.len() implies #[trigger] s[k] == i - k * m && s[k]
            > end by {
            if k > 0 {
                assert(s[k] == t[k - 1]);
                assert((i - m) - (k - 1) * m == i - k * m) by (nonlinear_arith);
            }
        }
        assert((i - m) - t.len() * m == i - (t.len() + 1) * m) by (nonlinear_arith);
    }
}

proof fn lemma_stride_down_shape(hi: int, lo: int, m: int)
    requires
        m > 0,
    ensures
        forall|k: int|
            0 <= k < stride_down(hi, lo, m).len() ==> #[trigger] stride_down(hi, lo, m)[k] == hi
                - 1 - k * m && stride_down(hi, lo, m)[k] >= lo,
        hi - 1 - stride_down(hi, lo, m).len() * m < lo,
    decreases gap(hi, lo),
{
    let s = stride_down(hi, lo, m);
    if hi > lo {
        lemma_stride_down_shape(hi - m, lo, m);
        let t = stride_down(hi - m, lo, m);
        assert forall|k: int| 0 <= k < s.len() implies #[trigger] s[k] == hi - 1 - k * m && s[k]
            >= lo by {
            if k > 0 {
                assert(s[k] == t[k - 1]);
                assert((hi - m) - 1 - (k - 1) * m == hi - 1 - k * m) by (nonlinear_arith);
            }
        }
        assert((hi - m) - 1 - t.len() * m == hi - 1 - (t.len() + 1) * m) by (nonlinear_arith);
    }
}

/// Normalising a slice bound: an index inside the list stays as it is, a
/// negative one counts from the end, and one beyond either end is clamped to
/// that end.
pub proof fn law_norm_index(i: int, len: int)
    requires
        0 <= len,
    ensures
        0 <= i <= len ==> norm_index(i, len) == i,
        -len <= i < 0 ==> norm_index(i, len) == len + i,
        i > len ==> norm_index(i, len) == len,
        i < -len ==> norm_index(i, len) == 0,
{
}

/// A forward slice walks from the normalised start in strides of `step`:
/// its `k`-th index is `norm_index(start) + k * step`, every index lies
/// below the normalised end, and one more stride would reach or pass it.
pub proof fn law_slice_forward(len: int, start: int, end: int, step: int)
    requires
        0 <= len,
        step > 0,
    ensures
        ({
            let idx = slice_indices(len, start, end, step);
            &&& forall|k: int|
                0 <= k < idx.len() ==> #[trigger] idx[k] == norm_index(start, len) + k * step
                    && idx[k] < norm_index(end, len)
            &&& norm_index(start, len) + idx.len() * step >= norm_index(end, len)
        }),
{
    lemma_stride_up_shape(norm_index(start, len), norm_index(end, len), step);
}

/// A backward slice walks down in strides of `-step` from `start` (taken as
/// Python takes it: a negative start counts from the end, and a start past
/// the end means the last element), or from the last element when the start
/// is omitted; every index stays above the end bound (through the first
/// element when the end is omitted), and one more stride would not.
pub proof fn law_slice_backward(len: int, start: int, end: int, step: int)
    requires
        0 <= len,
        step < 0,
    ensures
        ({
            let idx = slice_indices(len, start, end, step);
            let first = if start == 0 || start >= len {
                len - 1
            } else if start >= 0 {
                start
            } else {
                len + start
            };
            let stop = if end == i64::MAX || end < -len {
                -1
            } else if end >= len {
                len - 1
            } else if end >= 0 {
                end
            } else {
                len + end
            };
            &&& forall|k: int|
                0 <= k < idx.len() ==> #[trigger] idx[k] == first + k * step && idx[k] > stop
            &&& first + idx.len() * step <= stop
        }),
{
    let lo = if end == i64::MAX { 0 } else { down_bound(end, len) };
    let hi = if start == 0 { len } else { down_bound(start, len) };
    lemma_stride_down_shape(hi, lo, -step);
    let idx = slice_indices(len, start, end, step);
    assert forall|k: int| 0 <= k < idx.len() implies #[trigger] idx[k] == hi - 1 + k * step by {
        assert(k * (-step) == -(k * step)) by (nonlinear_arith);
    }
    assert(idx.len() * (-step) == -(idx.len() * step)) by (nonlinear_arith);
}

/// `range` with a positive step counts up from `start`: the `k`-th value is
/// `start + k * step`, every value lies below `end`, and one more step would
/// reach or pass it.
pub proof fn law_range_counts_up(start: int, end: int, step: int)
    requires
        step > 0,
    ensures
        ({
            let v = range_values(start, end, step);
            &&& forall|k: int| 0 <= k < v.len() ==> #[trigger] v[k] == start + k * step && v[k] < end
            &&& start + v.len() * step >= end
            &&& start < end ==> v.len() > 0 && v[0] == start
            &&& forall|k: int| 0 <= k < v.len() - 1 ==> #[trigger] v[k + 1] == v[k] + step
        }),
{
    lemma_stride_up_shape(start, end, step);
    let v = range_values(start, end, step);
    assert forall|k: int| 0 <= k < v.len() - 1 implies #[trigger] v[k + 1] == v[k] + step by {
        assert(start + (k + 1) * step == start + k * step + step) by (nonlinear_arith);
    }
}

/// `range` with a negative step counts down from `start` by the step's size:
/// the `k`-th value is `start + k * step`, every value lies above `end`, and
/// one more step would reach or pass it.
pub proof fn law_range_counts_down(start: int, end: int, step: int)
    requires
        step < 0,
    ensures
        ({
            let v = range_values(start, end, step);
            &&& forall|k: int| 0 <= k < v.len() ==> #[trigger] v[k] == start + k * step && v[k] > end
            &&& start + v.len() * step <= end
            &&& start > end ==> v.len() > 0 && v[0] == start
            &&& forall|k: int| 0 <= k < v.len() - 1 ==> #[trigger] v[k + 1] == v[k] + step
        }),
{
    lemma_count_down_shape(start, end, -step);
    let v = range_values(start, end, step);
    assert forall|k: int| 0 <= k < v.len() implies #[trigger] v[k] == start + k * step by {
        assert(start - k * (-step) == start + k * step) by (nonlinear_arith);
    }
    assert(start - v.len() * (-step) == start + v.len() * step) by (nonlinear_arith);
    assert forall|k: int| 0 <= k < v.len() - 1 implies #[trigger] v[k + 1] == v[k] + step by {
        assert(v[k] == start + k * step);
        assert(v[k + 1] == start + (k + 1) * step);
        assert(start + (k + 1) * step == start + k * step + step) by (nonlinear_arith);
    }
}

/// A range with a zero step yields nothing.
pub proof fn law_range_zero_step(start: int, end: int)
    ensures
        range_values(start, end, 0).len() == 0,
{
}

/// List concatenation `a + b`: the elements of `a` followed by those of `b`.
pub fn homun_concat<T>(a: Vec<T>, b: Vec<T>) -> (r: Vec<T>)
    ensures
        r@ == a@ + b@,
{
    let mut a = a;
    let mut b = b;
    a.append(&mut b);
    a
}

/// `str(x)`: the text that `x`'s `Display` implementation writes.
pub fn str_of<T: std::fmt::Display>(x: T) -> (r: String)
    ensures
        vstd::string::to_string_from_display_ensures::<T>(&x, r),
{
    x.to_string()
}

/// `len(x)` of generated code.
pub trait HomunLen {
    /// The length that `homun_len` reports.
    spec fn spec_homun_len(&self) -> nat;

    fn homun_len(&self) -> (r: usize)
        ensures
            r == self.spec_homun_len(),
    ;
}

impl<T> HomunLen for Vec<T> {
    /// The number of elements.
    open spec fn spec_homun_len(&self) -> nat {
        self@.len()
    }

    fn homun_len(&self) -> (r: usize) {
        self.len()
    }
}

impl<K, V> HomunLen for HashMap<K, V> {
    /// What `HashMap::len` reports: the number of entries, for key types
    /// that behave as hash keys.
    open spec fn spec_homun_len(&self) -> nat {
        vstd::std_specs::hash::spec_hash_map_len(self) as nat
    }

    fn homun_len(&self) -> (r: usize) {
        self.len()
    }
}

impl<T> HomunLen for HashSet<T> {
    /// What `HashSet::len` reports: the number of members, for member types
    /// that behave as hash keys.
    open spec fn spec_homun_len(&self) -> nat {
        vstd::std_specs::hash::spec_hash_set_len(self) as nat
    }

    fn homun_len(&self) -> (r: usize) {
        self.len()
    }
}

impl HomunLen for String {
    /// The length in bytes of the UTF-8 encoding.
    open spec fn spec_homun_len(&self) -> nat {
        (vstd::utf8::encode_utf8(self@).len() as usize) as nat
    }

    fn homun_len(&self) -> (r: usize) {
        self.as_str().len()
    }
}

impl HomunLen for str {
    /// The length in bytes of the UTF-8 encoding.
    open spec fn spec_homun_len(&self) -> nat {
        (vstd::utf8::encode_utf8(self@).len() as usize) as nat
    }

    fn homun_len(&self) -> (r: usize) {
        self.len()
    }
}

/// `len` of a dict counts its entries, for key types that behave as hash
/// keys (the integer and boolean types among them).
pub proof fn law_dict_len_counts_entries<K, V>(m: HashMap<K, V>)
    requires
        vstd::std_specs::hash::obeys_key_model::<K>(),
    ensures
        m.spec_homun_len() == m@.dom().len(),
{
    broadcast use vstd::std_specs::hash::group_hash_axioms;
}

/// Adding an entry under a fresh key makes `len` of a dict one larger.
pub proof fn law_dict_len_grows_by_fresh_key<K, V>(m1: HashMap<K, V>, m2: HashMap<K, V>, k: K, v: V)
    requires
        vstd::std_specs::hash::obeys_key_model::<K>(),
        m2@ == m1@.insert(k, v),
        !m1@.contains_key(k),
    ensures
        m2.spec_homun_len() == m1.spec_homun_len() + 1,
{
    broadcast use vstd::std_specs::hash::group_hash_axioms;
    assert(m1@.dom().finite());
    assert(m2@.dom() =~= m1@.dom().insert(k));
}

/// `len` of a set counts its members, for member types that behave as hash
/// keys.
pub proof fn law_set_len_counts_members<T>(m: HashSet<T>)
    requires
        vstd::std_specs::hash::obeys_key_model::<T>(),
    ensures
        m.spec_homun_len() == m@.len(),
{
    broadcast use vstd::std_specs::hash::group_hash_axioms;
}

/// `len` of a list counts its elements, and appending one makes it one
/// larger.
pub proof fn law_list_len_counts_elements<T>(v: Vec<T>, w: Vec<T>, x: T)
    requires
        w@ == v@.push(x),
    ensures
        v.spec_homun_len() == v@.len(),
        w.spec_homun_len() == v.spec_homun_len() + 1,
{
}

/// `x[key]` of generated code: reading an element yields a clone of it.
pub trait HomunIndex<K> {
    type Output;

    /// When `key` selects an element of `self`.
    spec fn index_ok(&self, key: K) -> bool;

    /// `out` is what indexing `self` at `key` gives.
    spec fn index_result(&self, key: K, out: Self::Output) -> bool;

    fn homun_idx(&self, key: K) -> (r: Self::Output)
        requires
            self.index_ok(key),
        ensures
            self.index_result(key, r),
    ;
}

/// The position that a list index selects: a negative index counts from the
/// end of the list.
pub open spec fn list_position(len: int, key: int) -> int {
    if key < 0 {
        len + key
    } else {
        key
    }
}

impl<T: Clone> HomunIndex<i32> for Vec<T> {
    type Output = T;

    /// The list fits in `i32` and the index, once a negative one is counted
    /// from the end, lies inside it.
    open spec fn index_ok(&self, key: i32) -> bool {
        &&& self@.len() <= i32::MAX
        &&& 0 <= list_position(self@.len() as int, key as int) < self@.len()
    }

    open spec fn index_result(&self, key: i32, out: T) -> bool {
        cloned::<T>(self@[list_position(self@.len() as int, key as int)], out)
    }

    fn homun_idx(&self, key: i32) -> (r: T) {
        let i = if key < 0 {
            self.len() as i32 + key
        } else {
            key
        };
        self[i as usize].clone()
    }
}

impl<V: Clone> HomunIndex<i32> for HashMap<i32, V> {
    type Output = Option<V>;

    /// Any key may be read.
    open spec fn index_ok(&self, key: i32) -> bool {
        true
    }

    /// Dict access yields the value for a present key, and none for a
    /// missing one.
    open spec fn index_result(&self, key: i32, out: Option<V>) -> bool {
        if self@.contains_key(key) {
            out matches Some(v) && cloned::<V>(self@[key], v)
        } else {
            out is None
        }
    }

    fn homun_idx(&self, key: i32) -> (r: Option<V>) {
        proof {
            broadcast use vstd::std_specs::hash::group_hash_axioms;
        }
        match self.get(&key) {
            Some(v) => Some(v.clone()),
            None => None,
        }
    }
}

/// The values `i, i - m, i - 2m, ...` that stay above `end` (`m > 0`).
pub open spec fn count_down(i: int, end: int, m: int) -> Seq<int>
    decreases gap(i, end),
{
    if m <= 0 || i <= end {
        Seq::empty()
    } else {
        seq![i].add(count_down(i - m, end, m))
    }
}

/// The values of `range(start, end, step)`: counting up from `start` while
/// below `end` for a positive step, counting down from `start` while above
/// `end` for a negative step, and nothing for a zero step.
pub open spec fn range_values(start: int, end: int, step: int) -> Seq<int> {
    if step > 0 {
        stride_up(start, end, step)
    } else if step < 0 {
        count_down(start, end, -step)
    } else {
        Seq::empty()
    }
}

/// The values that `range(start, end, step)` yields, in order.
pub fn homun_range(start: i64, end: i64, step: i64) -> (r: Vec<i64>)
    ensures
        r@.len() == range_values(start as int, end as int, step as int).len(),
        forall|k: int|
            0 <= k < r@.len() ==> #[trigger] r@[k] == range_values(
                start as int,
                end as int,
                step as int,
            )[k],
{
    let ghost vals = range_values(start as int, end as int, step as int);
    let mut r: Vec<i64> = Vec::new();
    let ghost mut done: Seq<int> = Seq::empty();
    if step > 0 {
        let mut i = start;
        while i < end
            invariant
                step > 0,
                vals == stride_up(start as int, end as int, step as int),
                vals == done + stride_up(i as int, end as int, step as int),
                r@.len() == done.len(),
                forall|k: int| 0 <= k < r@.len() ==> #[trigger] r@[k] == done[k],
            decreases end - i,
        {
            r.push(i);
            let next: i128 = i as i128 + step as i128;
            proof {
                assert(done.push(i as int) + stride_up(i + step, end as int, step as int) =~= done
                    + stride_up(i as int, end as int, step as int));
                done = done.push(i as int);
            }
            if next >= end as i128 {
                proof {
                    assert(stride_up(i + step, end as int, step as int) =~= Seq::<int>::empty());
                    assert(stride_up(end as int, end as int, step as int) =~= Seq::<int>::empty());
                }
                i = end;
            } else {
                i = next as i64;
            }
        }
        proof {
            assert(stride_up(i as int, end as int, step as int) =~= Seq::<int>::empty());
            assert(vals =~= done);
        }
    } else if step < 0 {
        let mut i = start;
        while i > end
            invariant
                step < 0,
                vals == count_down(start as int, end as int, -step),
                vals == done + count_down(i as int, end as int, -step),
                r@.len() == done.len(),
                forall|k: int| 0 <= k < r@.len() ==> #[trigger] r@[k] == done[k],
            decreases i - end,
        {
            r.push(i);
            let next: i128 = i as i128 + step as i128;
            proof {
                assert(done.push(i as int) + count_down(i + step, end as int, -step) =~= done
                    + count_down(i as int, end as int, -step));
                done = done.push(i as int);
            }
            if next <= end as i128 {
                proof {
                    assert(count_down(i + step, end as int, -step) =~= Seq::<int>::empty());
                    assert(count_down(end as int, end as int, -step) =~= Seq::<int>::empty());
                }
                i = end;
            } else {
                i = next as i64;
            }
        }
        proof {
            assert(count_down(i as int, end as int, -step) =~= Seq::<int>::empty());
            assert(vals =~= done);
        }
    }
    r
}

/// `out` is what a string-keyed dict `m` holds under the key `key`: the
/// value stored under a string with `key`'s characters, or none when no
/// stored key has them.
pub open spec fn string_key_lookup<V>(m: Map<String, V>, key: Seq<char>, out: Option<&V>) -> bool {
    match out {
        Some(v) => exists|s: String| #[trigger] m.contains_key(s) && s@ == key && m[s] == *v,
        None => forall|s: String| #[trigger] m.contains_key(s) ==> s@ != key,
    }
}

/// Calls `HashMap::get` with a `&str` key on a map keyed by `String`. The
/// map finds the stored key that equals `key` as a `str` (the `Borrow`
/// contract of `String` makes `str` equality and hashing agree with
/// `String`'s); the claim is that the result is the value under such a key,
/// and `None` when no stored key has `key`'s characters.
#[verifier::external_body]
fn string_key_get<'a, V>(m: &'a HashMap<String, V>, key: &str) -> (r: Option<&'a V>)
    ensures
        string_key_lookup(m@, key@, r),
{
    m.get(key)
}

impl<'a, V: Clone> HomunIndex<&'a str> for HashMap<String, V> {
    type Output = Option<V>;

    /// Any key may be read.
    open spec fn index_ok(&self, key: &'a str) -> bool {
        true
    }

    /// Dict access yields a clone of the value stored under a string with
    /// `key`'s characters, or none when there is no such entry.
    open spec fn index_result(&self, key: &'a str, out: Option<V>) -> bool {
        match out {
            Some(v) => exists|s: String|
                #[trigger] self@.contains_key(s) && s@ == key@ && cloned::<V>(self@[s], v),
            None => forall|s: String| #[trigger] self@.contains_key(s) ==> s@ != key@,
        }
    }

    fn homun_idx(&self, key: &'a str) -> (r: Option<V>) {
        match string_key_get(self, key) {
            Some(v) => Some(v.clone()),
            None => None,
        }
    }
}

} // verus!
