//! Scopes of semantic analysis and code generation: sets of bound names.
use vstd::prelude::*;
use crate::text::{lex_less, lex_lt, lemma_lex_lt_irreflexive, lemma_lex_lt_total, lemma_lex_lt_transitive, views};

verus! {

/// A set of bound names. The names are held in a list, each at most once,
/// because copying, union and the sorted listing walk every member, and
/// vstd's string set offers membership tests but no way to visit its members.
pub struct Scope {
    names: Vec<String>,
}

impl View for Scope {
    type V = Set<Seq<char>>;

    /// The names bound in the scope.
    closed spec fn view(&self) -> Set<Seq<char>> {
        views(self.names@).to_set()
    }
}

/// `names` is in strictly increasing lexicographic order, so it also holds
/// no name twice.
pub open spec fn strictly_sorted(names: Seq<Seq<char>>) -> bool {
    forall|i: int, j: int| 0 <= i < j < names.len() ==> lex_lt(#[trigger] names[i], #[trigger] names[j])
}

fn find_name(names: &Vec<String>, name: &str) -> (r: bool)
    ensures
        r == views(names@).contains(name@),
{
    let mut i: usize = 0;
    while i < names.len()
        invariant
            i <= names.len(),
            forall|k: int| 0 <= k < i ==> names@[k]@ != name@,
        decreases names.len() - i,
    {
        if names[i].as_str().to_owned() == name.to_owned() {
            proof {
                assert(views(names@)[i as int] == name@);
            }
            return true;
        }
        i = i + 1;
    }
    proof {
        if views(names@).contains(name@) {
            let k = choose|k: int| 0 <= k < views(names@).len() && views(names@)[k] == name@;
            assert(names@[k]@ == name@);
        }
    }
    false
}

/// An empty scope.
pub fn scope_new() -> (r: Scope)
    ensures
        r@ == Set::<Seq<char>>::empty(),
{
    let r = Scope { names: Vec::new() };
    proof {
        assert(views(r.names@) =~= Seq::<Seq<char>>::empty());
        assert(r@ =~= Set::<Seq<char>>::empty());
    }
    r
}

/// Whether `name` is bound in `sc`.
pub fn scope_contains(sc: &Scope, name: String) -> (r: bool)
    ensures
        r == sc@.contains(name@),
{
    find_name(&sc.names, name.as_str())
}

/// Binds `name` in `sc`.
pub fn scope_insert(sc: &mut Scope, name: String)
    ensures
        final(sc)@ == old(sc)@.insert(name@),
{
    if !find_name(&sc.names, name.as_str()) {
        let ghost before = sc.names@;
        sc.names.push(name);
        proof {
            assert(views(sc.names@) =~= views(before).push(name@));
            assert(sc@ =~= views(before).to_set().insert(name@)) by {
                views(before).lemma_push_to_set_commute(name@);
            }
        }
    } else {
        proof {
            assert(sc@ =~= sc@.insert(name@));
        }
    }
}

/// An independent copy of `sc`: later changes to either leave the other as
/// it is.
pub fn scope_clone(sc: &Scope) -> (r: Scope)
    ensures
        r@ == sc@,
{
    let mut names: Vec<String> = Vec::new();
    let mut i: usize = 0;
    while i < sc.names.len()
        invariant
            i <= sc.names.len(),
            names@ == sc.names@.take(i as int),
        decreases sc.names.len() - i,
    {
        names.push(sc.names[i].clone());
        proof {
            assert(names@ =~= sc.names@.take(i + 1));
        }
        i = i + 1;
    }
    proof {
        assert(names@ =~= sc.names@);
    }
    Scope { names }
}

/// A scope binding exactly the names of `list`.
pub fn scope_from_list(list: Vec<String>) -> (r: Scope)
    ensures
        r@ == views(list@).to_set(),
{
    let mut sc = scope_new();
    let mut i: usize = 0;
    proof {
        assert(views(list@).take(0).to_set() =~= Set::<Seq<char>>::empty());
    }
    while i < list.len()
        invariant
            i <= list.len(),
            sc@ == views(list@).take(i as int).to_set(),
        decreases list.len() - i,
    {
        scope_insert(&mut sc, list[i].clone());
        proof {
            let t = views(list@).take(i as int);
            assert(views(list@).take(i + 1) =~= t.push(list@[i as int]@));
            t.lemma_push_to_set_commute(list@[i as int]@);
        }
        i = i + 1;
    }
    proof {
        assert(views(list@).take(i as int) =~= views(list@));
    }
    sc
}

/// A new scope binding the names of both `a` and `b`.
pub fn scope_union(a: &Scope, b: &Scope) -> (r: Scope)
    ensures
        r@ == a@.union(b@),
{
    let mut sc = scope_clone(a);
    let mut i: usize = 0;
    proof {
        assert(views(b.names@).take(0).to_set() =~= Set::<Seq<char>>::empty());
        assert(sc@ =~= a@.union(Set::<Seq<char>>::empty()));
    }
    while i < b.names.len()
        invariant
            i <= b.names.len(),
            sc@ == a@.union(views(b.names@).take(i as int).to_set()),
        decreases b.names.len() - i,
    {
        let ghost before = sc@;
        scope_insert(&mut sc, b.names[i].clone());
        proof {
            let t = views(b.names@).take(i as int);
            assert(views(b.names@).take(i + 1) =~= t.push(b.names@[i as int]@));
            t.lemma_push_to_set_commute(b.names@[i as int]@);
            assert(sc@ =~= a@.union(views(b.names@).take(i + 1).to_set()));
        }
        i = i + 1;
    }
    proof {
        assert(views(b.names@).take(i as int) =~= views(b.names@));
    }
    sc
}

proof fn lemma_insert_to_set(s: Seq<Seq<char>>, p: int, x: Seq<char>)
    requires
        0 <= p <= s.len(),
    ensures
        s.insert(p, x).to_set() == s.to_set().insert(x),
{
    let t = s.insert(p, x);
    s.insert_ensures(p, x);
    assert forall|y: Seq<char>| t.contains(y) implies s.to_set().insert(x).contains(y) by {
        let k = choose|k: int| 0 <= k < t.len() && t[k] == y;
        if k < p {
            assert(s[k] == y);
        } else if k > p {
            assert(s[k - 1] == y);
        }
    }
    assert forall|y: Seq<char>| s.to_set().insert(x).contains(y) implies t.contains(y) by {
        if y == x {
            assert(t[p] == y);
        } else {
            let k = choose|k: int| 0 <= k < s.len() && s[k] == y;
            if k < p {
                assert(t[k] == y);
            } else {
                assert(t[k + 1] == y);
            }
        }
    }
    assert(t.to_set() =~= s.to_set().insert(x));
}

proof fn lemma_insert_sorted(s: Seq<Seq<char>>, p: int, x: Seq<char>)
    requires
        strictly_sorted(s),
        0 <= p <= s.len(),
        forall|k: int| 0 <= k < p ==> lex_lt(#[trigger] s[k], x),
        p < s.len() ==> lex_lt(x, s[p]),
    ensures
        strictly_sorted(s.insert(p, x)),
{
    let t = s.insert(p, x);
    s.insert_ensures(p, x);
    assert forall|i: int, j: int| 0 <= i < j < t.len() implies lex_lt(#[trigger] t[i], #[trigger] t[j]) by {
        if j < p {
        } else if j == p {
            assert(t[i] == s[i]);
        } else if i < p {
            assert(t[j] == s[j - 1]);
            lemma_lex_lt_transitive(s[i], x, s[p]);
            if j - 1 > p {
                lemma_lex_lt_transitive(s[i], s[p], s[j - 1]);
            }
        } else if i == p {
            assert(t[j] == s[j - 1]);
            if j - 1 > p {
                lemma_lex_lt_transitive(x, s[p], s[j - 1]);
            }
        } else {
            assert(t[i] == s[i - 1]);
            assert(t[j] == s[j - 1]);
        }
    }
}

/// The names of `sc`, each once, in lexicographic order, so that output
/// built from a scope does not depend on insertion order.
pub fn scope_to_list(sc: &Scope) -> (r: Vec<String>)
    ensures
        strictly_sorted(views(r@)),
        views(r@).to_set() == sc@,
{
    let mut r: Vec<String> = Vec::new();
    let mut i: usize = 0;
    proof {
        assert(views(r@).to_set() =~= views(sc.names@).take(0).to_set());
    }
    while i < sc.names.len()
        invariant
            i <= sc.names.len(),
            strictly_sorted(views(r@)),
            views(r@).to_set() == views(sc.names@).take(i as int).to_set(),
        decreases sc.names.len() - i,
    {
        let name = &sc.names[i];
        let ghost x = name@;
        let ghost before = views(r@);
        let mut p: usize = 0;
        let mut placed = false;
        while !placed && p < r.len()
            invariant
                p <= r.len(),
                views(r@) == before,
                x == name@,
                forall|k: int| 0 <= k < p ==> lex_lt(#[trigger] before[k], x),
                placed ==> p < r.len() && !lex_lt(before[p as int], x),
            decreases r.len() - p, if placed { 0int } else { 1int },
        {
            if lex_less(r[p].as_str(), name.as_str()) {
                p = p + 1;
            } else {
                placed = true;
            }
        }
        let ghost set_before = before.to_set();
        proof {
            let t = views(sc.names@).take(i as int);
            assert(views(sc.names@).take(i + 1) =~= t.push(x));
            t.lemma_push_to_set_commute(x);
        }
        if p < r.len() && r[p].as_str().to_owned() == name.as_str().to_owned() {
            proof {
                assert(before[p as int] == x);
                assert(set_before.contains(x));
                assert(set_before.insert(x) =~= set_before);
            }
        } else {
            proof {
                if p < r.len() {
                    lemma_lex_lt_total(before[p as int], x);
                }
                lemma_insert_sorted(before, p as int, x);
                lemma_insert_to_set(before, p as int, x);
            }
            r.insert(p, name.clone());
            proof {
                assert(views(r@) =~= before.insert(p as int, x));
            }
        }
        i = i + 1;
    }
    proof {
        assert(views(sc.names@).take(i as int) =~= views(sc.names@));
    }
    r
}

proof fn lemma_sorted_head_is_least(a: Seq<Seq<char>>, y: Seq<char>)
    requires
        strictly_sorted(a),
        a.len() > 0,
        a.contains(y),
    ensures
        y == a[0] || lex_lt(a[0], y),
{
    let k = choose|k: int| 0 <= k < a.len() && a[k] == y;
    if k > 0 {
        assert(lex_lt(a[0], a[k]));
    }
}

proof fn lemma_sorted_tail_set(a: Seq<Seq<char>>)
    requires
        strictly_sorted(a),
        a.len() > 0,
    ensures
        a.drop_first().to_set() == a.to_set().remove(a[0]),
{
    let t = a.drop_first();
    assert forall|y: Seq<char>| t.contains(y) implies a.to_set().remove(a[0]).contains(y) by {
        let k = choose|k: int| 0 <= k < t.len() && t[k] == y;
        assert(a[k + 1] == y);
        assert(lex_lt(a[0], a[k + 1]));
        lemma_lex_lt_irreflexive(a[0]);
    }
    assert forall|y: Seq<char>| a.to_set().remove(a[0]).contains(y) implies t.contains(y) by {
        let k = choose|k: int| 0 <= k < a.len() && a[k] == y;
        assert(k != 0);
        assert(t[k - 1] == y);
    }
    assert(t.to_set() =~= a.to_set().remove(a[0]));
}

/// A set of names has only one strictly sorted listing: two scopes that bind
/// the same names are listed identically, whatever order the names were
/// bound in.
pub proof fn law_sorted_listing_is_unique(a: Seq<Seq<char>>, b: Seq<Seq<char>>)
    requires
        strictly_sorted(a),
        strictly_sorted(b),
        a.to_set() == b.to_set(),
    ensures
        a == b,
    decreases a.len(),
{
    if a.len() == 0 {
        if b.len() > 0 {
            assert(b.to_set().contains(b[0]));
        }
        assert(a =~= b);
    } else {
        assert(a.to_set().contains(a[0]));
        assert(b.len() > 0) by {
            if b.len() == 0 {
                assert(!b.contains(a[0]));
            }
        }
        assert(b.to_set().contains(b[0]));
        lemma_sorted_head_is_least(a, b[0]);
        lemma_sorted_head_is_least(b, a[0]);
        if a[0] != b[0] {
            lemma_lex_lt_transitive(a[0], b[0], a[0]);
            lemma_lex_lt_irreflexive(a[0]);
        }
        lemma_sorted_tail_set(a);
        lemma_sorted_tail_set(b);
        assert(strictly_sorted(a.drop_first()));
        assert(strictly_sorted(b.drop_first()));
        law_sorted_listing_is_unique(a.drop_first(), b.drop_first());
        assert(a =~= b) by {
            assert(a =~= seq![a[0]] + a.drop_first());
            assert(b =~= seq![b[0]] + b.drop_first());
        }
    }
}

} // verus!
