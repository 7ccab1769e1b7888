//! Text in code-point order: sorting a list of names, removing repeats, and
//! a set of names that keeps itself sorted.
use vstd::prelude::*;

use crate::text::{seq_lt, str_eq, str_lt};

verus! {

/// The characters of each string, in order.
pub open spec fn views(s: Seq<String>) -> Seq<Seq<char>> {
    s.map_values(|x: String| x@)
}

/// `s` is in non-decreasing order.
pub open spec fn sorted(s: Seq<Seq<char>>) -> bool {
    forall|i: int, j: int| 0 <= i < j < s.len() ==> !seq_lt(#[trigger] s[j], #[trigger] s[i])
}

/// `s` is in strictly increasing order, so nothing occurs twice.
pub open spec fn strictly_sorted(s: Seq<Seq<char>>) -> bool {
    forall|i: int, j: int| 0 <= i < j < s.len() ==> seq_lt(#[trigger] s[i], #[trigger] s[j])
}

/// Where `x` goes in a sorted `s`: after every element it does not sort
/// before, so equal elements keep their order.
pub open spec fn insert_pos(s: Seq<Seq<char>>, x: Seq<char>) -> nat
    decreases s.len(),
{
    if s.len() == 0 {
        0
    } else if seq_lt(x, s[0]) {
        0
    } else {
        1 + insert_pos(s.drop_first(), x)
    }
}

pub open spec fn insert_sorted(s: Seq<Seq<char>>, x: Seq<char>) -> Seq<Seq<char>> {
    s.insert(insert_pos(s, x) as int, x)
}

/// A stable sort, written as repeated insertion.
pub open spec fn sort_seq(s: Seq<Seq<char>>) -> Seq<Seq<char>>
    decreases s.len(),
{
    if s.len() == 0 {
        s
    } else {
        insert_sorted(sort_seq(s.drop_last()), s.last())
    }
}

/// `s` with each run of equal neighbours reduced to its first element.
pub open spec fn dedup_seq(s: Seq<Seq<char>>) -> Seq<Seq<char>>
    decreases s.len(),
{
    if s.len() <= 1 {
        s
    } else if s[s.len() - 2] == s.last() {
        dedup_seq(s.drop_last())
    } else {
        dedup_seq(s.drop_last()).push(s.last())
    }
}

// --- the order itself ---------------------------------------------------------

pub proof fn lemma_lt_irreflexive(a: Seq<char>)
    ensures
        !seq_lt(a, a),
    decreases a.len(),
{
    if a.len() > 0 {
        lemma_lt_irreflexive(a.drop_first());
    }
}

pub proof fn lemma_lt_asymmetric(a: Seq<char>, b: Seq<char>)
    ensures
        seq_lt(a, b) ==> !seq_lt(b, a),
    decreases a.len(),
{
    if a.len() > 0 && b.len() > 0 && a[0] == b[0] {
        lemma_lt_asymmetric(a.drop_first(), b.drop_first());
    }
}

pub proof fn lemma_lt_transitive(a: Seq<char>, b: Seq<char>, c: Seq<char>)
    ensures
        seq_lt(a, b) && seq_lt(b, c) ==> seq_lt(a, c),
    decreases a.len(),
{
    if a.len() > 0 && b.len() > 0 && c.len() > 0 && a[0] == b[0] && b[0] == c[0] {
        lemma_lt_transitive(a.drop_first(), b.drop_first(), c.drop_first());
    }
}

pub proof fn lemma_lt_total(a: Seq<char>, b: Seq<char>)
    ensures
        a != b ==> seq_lt(a, b) || seq_lt(b, a),
    decreases a.len(),
{
    if a.len() > 0 && b.len() > 0 {
        if a[0] == b[0] {
            lemma_lt_total(a.drop_first(), b.drop_first());
            if a.drop_first() == b.drop_first() {
                assert(a =~= seq![a[0]] + a.drop_first());
                assert(b =~= seq![b[0]] + b.drop_first());
            }
        } else {
            assert((a[0] as int) != (b[0] as int));
        }
    } else if a.len() == 0 && b.len() == 0 {
        assert(a =~= b);
    }
}

proof fn lemma_insert_pos_bound(s: Seq<Seq<char>>, x: Seq<char>)
    ensures
        insert_pos(s, x) <= s.len(),
    decreases s.len(),
{
    if s.len() > 0 && !seq_lt(x, s[0]) {
        lemma_insert_pos_bound(s.drop_first(), x);
    }
}

proof fn lemma_insert_pos_split(s: Seq<Seq<char>>, x: Seq<char>, i: int)
    requires
        0 <= i < s.len(),
        !seq_lt(x, s[i]),
        insert_pos(s.subrange(i, s.len() as int), x) + i == insert_pos(s, x),
    ensures
        insert_pos(s.subrange(i + 1, s.len() as int), x) + i + 1 == insert_pos(s, x),
{
    let t = s.subrange(i, s.len() as int);
    assert(t.drop_first() =~= s.subrange(i + 1, s.len() as int));
    assert(t[0] == s[i]);
}

/// Inserting into a sorted sequence keeps it sorted.
pub proof fn lemma_insert_sorted_sorted(s: Seq<Seq<char>>, x: Seq<char>)
    requires
        sorted(s),
    ensures
        sorted(insert_sorted(s, x)),
        insert_sorted(s, x).len() == s.len() + 1,
    decreases s.len(),
{
    lemma_insert_pos_bound(s, x);
    let p = insert_pos(s, x) as int;
    let r = insert_sorted(s, x);
    if s.len() == 0 {
        return;
    }
    if seq_lt(x, s[0]) {
        assert forall|i: int, j: int| 0 <= i < j < r.len() implies !seq_lt(#[trigger] r[j], #[trigger] r[i]) by {
            if i == 0 {
                lemma_lt_asymmetric(x, s[j - 1]);
                if j - 1 > 0 {
                    lemma_lt_total(s[0], s[j - 1]);
                    lemma_lt_transitive(x, s[0], s[j - 1]);
                }
            }
        }
    } else {
        let t = s.drop_first();
        assert(sorted(t));
        lemma_insert_sorted_sorted(t, x);
        let rt = insert_sorted(t, x);
        assert(r =~= seq![s[0]] + rt);
        assert forall|i: int, j: int| 0 <= i < j < r.len() implies !seq_lt(#[trigger] r[j], #[trigger] r[i]) by {
            if i == 0 {
                // every element of rt is either x or an element of t, none below s[0]
                let q = insert_pos(t, x) as int;
                lemma_insert_pos_bound(t, x);
                if j - 1 == q {
                    assert(r[j] == x);
                    lemma_lt_total(x, s[0]);
                } else if j - 1 < q {
                    assert(r[j] == t[j - 1]);
                } else {
                    assert(r[j] == t[j - 2]);
                }
            } else {
                assert(r[i] == rt[i - 1]);
                assert(r[j] == rt[j - 1]);
            }
        }
    }
}

/// A sorted sequence is what `sort_seq` returns.
pub proof fn lemma_sort_seq_sorted(s: Seq<Seq<char>>)
    ensures
        sorted(sort_seq(s)),
        sort_seq(s).len() == s.len(),
    decreases s.len(),
{
    if s.len() > 0 {
        lemma_sort_seq_sorted(s.drop_last());
        lemma_insert_sorted_sorted(sort_seq(s.drop_last()), s.last());
    }
}

/// Inserting at a position adds exactly the inserted element.
proof fn lemma_seq_insert_contains(s: Seq<Seq<char>>, p: int, x: Seq<char>)
    requires
        0 <= p <= s.len(),
    ensures
        forall|y: Seq<char>| s.insert(p, x).contains(y) <==> s.contains(y) || y == x,
{
    let r = s.insert(p, x);
    assert forall|y: Seq<char>| r.contains(y) <==> s.contains(y) || y == x by {
        if r.contains(y) {
            let k = choose|k: int| 0 <= k < r.len() && r[k] == y;
            if k < p {
                assert(s[k] == y);
            } else if k > p {
                assert(s[k - 1] == y);
            }
        }
        if s.contains(y) {
            let k = choose|k: int| 0 <= k < s.len() && s[k] == y;
            if k < p {
                assert(r[k] == y);
            } else {
                assert(r[k + 1] == y);
            }
        }
        if y == x {
            assert(r[p] == y);
        }
    }
}

/// Sorting keeps exactly the elements it was given.
pub proof fn lemma_sort_seq_contains(s: Seq<Seq<char>>)
    ensures
        forall|x: Seq<char>| #[trigger] sort_seq(s).contains(x) <==> s.contains(x),
        sort_seq(s).len() == s.len(),
    decreases s.len(),
{
    lemma_sort_seq_sorted(s);
    if s.len() > 0 {
        lemma_sort_seq_contains(s.drop_last());
        let t = sort_seq(s.drop_last());
        lemma_insert_pos_bound(t, s.last());
        lemma_seq_insert_contains(t, insert_pos(t, s.last()) as int, s.last());
        assert(sort_seq(s) == t.insert(insert_pos(t, s.last()) as int, s.last()));
        assert forall|y: Seq<char>| s.contains(y) <==> s.drop_last().contains(y) || y == s.last() by {
            if s.contains(y) {
                let k = choose|k: int| 0 <= k < s.len() && s[k] == y;
                if k < s.len() - 1 {
                    assert(s.drop_last()[k] == y);
                }
            }
            if s.drop_last().contains(y) {
                let k = choose|k: int| 0 <= k < s.len() - 1 && s.drop_last()[k] == y;
                assert(s[k] == y);
            }
        }
        assert forall|x: Seq<char>| #[trigger] sort_seq(s).contains(x) <==> s.contains(x) by {
            assert(sort_seq(s.drop_last()).contains(x) <==> s.drop_last().contains(x));
        }
    }
}

/// Removing repeated neighbours keeps every element that was there.
pub proof fn lemma_dedup_contains(s: Seq<Seq<char>>)
    ensures
        forall|x: Seq<char>| #[trigger] dedup_seq(s).contains(x) <==> s.contains(x),
    decreases s.len(),
{
    if s.len() > 1 {
        lemma_dedup_contains(s.drop_last());
        assert forall|y: Seq<char>| s.contains(y) <==> s.drop_last().contains(y) || y == s.last() by {
            if s.contains(y) {
                let k = choose|k: int| 0 <= k < s.len() && s[k] == y;
                if k < s.len() - 1 {
                    assert(s.drop_last()[k] == y);
                }
            }
            if s.drop_last().contains(y) {
                let k = choose|k: int| 0 <= k < s.len() - 1 && s.drop_last()[k] == y;
                assert(s[k] == y);
            }
        }
        if s[s.len() - 2] == s.last() {
            assert(s.drop_last()[s.len() - 2] == s.last());
            assert forall|x: Seq<char>| #[trigger] dedup_seq(s).contains(x) <==> s.contains(x) by {
                assert(dedup_seq(s.drop_last()).contains(x) <==> s.drop_last().contains(x));
                assert(s.drop_last().contains(s.last()));
            }
        } else {
            let d = dedup_seq(s.drop_last());
            assert forall|y: Seq<char>| d.push(s.last()).contains(y) <==> d.contains(y) || y == s.last() by {
                if d.push(s.last()).contains(y) {
                    let k = choose|k: int| 0 <= k < d.len() + 1 && d.push(s.last())[k] == y;
                    if k < d.len() {
                        assert(d[k] == y);
                    }
                }
                if d.contains(y) {
                    let k = choose|k: int| 0 <= k < d.len() && d[k] == y;
                    assert(d.push(s.last())[k] == y);
                }
                if y == s.last() {
                    assert(d.push(s.last())[d.len() as int] == y);
                }
            }
            assert forall|x: Seq<char>| #[trigger] dedup_seq(s).contains(x) <==> s.contains(x) by {
                assert(dedup_seq(s.drop_last()).contains(x) <==> s.drop_last().contains(x));
            }
        }
    }
}

/// Removing repeated neighbours from a sorted sequence leaves each element
/// once, in strictly increasing order.
pub proof fn lemma_dedup_sorted_strict(s: Seq<Seq<char>>)
    requires
        sorted(s),
    ensures
        strictly_sorted(dedup_seq(s)),
    decreases s.len(),
{
    if s.len() == 1 {
        assert(dedup_seq(s) == s);
    }
    if s.len() > 1 {
        let init = s.drop_last();
        assert(sorted(init));
        lemma_dedup_sorted_strict(init);
        lemma_dedup_contains(init);
        let d = dedup_seq(init);
        if s[s.len() - 2] != s.last() {
            let last = s.last();
            assert forall|k: int| 0 <= k < d.len() implies seq_lt(#[trigger] d[k], last) by {
                assert(d.contains(d[k]));
                assert(init.contains(d[k]));
                let q = choose|q: int| 0 <= q < init.len() && init[q] == d[k];
                assert(!seq_lt(last, s[q]));
                lemma_lt_total(s[q], last);
                if s[q] == last {
                    assert(!seq_lt(s[s.len() - 2], s[q]));
                    if q < s.len() - 2 {
                        assert(!seq_lt(s[s.len() - 2], s[q]));
                    }
                    lemma_lt_total(s[q], s[s.len() - 2]);
                    assert(!seq_lt(last, s[s.len() - 2]));
                }
            }
            let r = d.push(last);
            assert forall|i: int, j: int| 0 <= i < j < r.len() implies seq_lt(#[trigger] r[i], #[trigger] r[j]) by {
                if j == r.len() - 1 {
                    assert(r[i] == d[i]);
                } else {
                    assert(r[i] == d[i] && r[j] == d[j]);
                }
            }
        }
    }
}

// --- executable counterparts ----------------------------------------------------

/// Insert `x` where `insert_sorted` puts it.
pub fn insert_in_order(v: &mut Vec<String>, x: String)
    ensures
        views(final(v)@) == insert_sorted(views(old(v)@), x@),
{
    let ghost s = views(v@);
    let n: usize = v.len();
    let mut i: usize = 0;
    assert(s.subrange(0, n as int) =~= s);
    while i < n && !str_lt(x.as_str(), v[i].as_str())
        invariant
            n == v@.len(),
            s == views(v@),
            i <= n,
            insert_pos(s.subrange(i as int, n as int), x@) + i == insert_pos(s, x@),
        decreases n - i,
    {
        proof {
            lemma_insert_pos_split(s, x@, i as int);
        }
        i = i + 1;
    }
    proof {
        if i < n {
            let t = s.subrange(i as int, n as int);
            assert(t[0] == s[i as int]);
        } else {
            assert(s.subrange(i as int, n as int).len() == 0);
        }
    }
    v.insert(i, x);
    proof {
        assert(views(v@) =~= s.insert(i as int, x@));
    }
}

/// The strings, sorted: what `sort` on a `Vec<String>` leaves.
pub fn sort_strings(v: Vec<String>) -> (r: Vec<String>)
    ensures
        views(r@) == sort_seq(views(v@)),
{
    let mut r: Vec<String> = Vec::new();
    let mut i: usize = 0;
    let n: usize = v.len();
    while i < n
        invariant
            n == v@.len(),
            i <= n,
            views(r@) == sort_seq(views(v@.subrange(0, i as int))),
        decreases n - i,
    {
        let ghost before = views(v@.subrange(0, i as int));
        let x: String = v[i].clone();
        insert_in_order(&mut r, x);
        proof {
            let after = views(v@.subrange(0, i + 1));
            assert(after.drop_last() =~= before);
            assert(after.last() == v@[i as int]@);
        }
        i = i + 1;
    }
    assert(v@.subrange(0, n as int) =~= v@);
    r
}

/// Each run of equal neighbours reduced to its first element: what `dedup`
/// on a `Vec<String>` leaves.
pub fn dedup_strings(v: Vec<String>) -> (r: Vec<String>)
    ensures
        views(r@) == dedup_seq(views(v@)),
{
    let mut r: Vec<String> = Vec::new();
    let n: usize = v.len();
    let mut i: usize = 0;
    while i < n
        invariant
            n == v@.len(),
            i <= n,
            views(r@) == dedup_seq(views(v@.subrange(0, i as int))),
            i > 0 ==> r@.len() > 0 && r@.last()@ == v@[i - 1]@,
        decreases n - i,
    {
        let ghost before = views(v@.subrange(0, i as int));
        let ghost after = views(v@.subrange(0, i + 1));
        proof {
            assert(after.drop_last() =~= before);
            assert(after.last() == v@[i as int]@);
            if i > 0 {
                assert(after[after.len() - 2] == v@[i - 1]@);
                lemma_dedup_last(before);
            }
        }
        if i == 0 || !str_eq(v[i - 1].as_str(), v[i].as_str()) {
            r.push(v[i].clone());
            proof {
                assert(views(r@) =~= views(r@.drop_last()).push(v@[i as int]@));
            }
        }
        i = i + 1;
    }
    assert(v@.subrange(0, n as int) =~= v@);
    r
}

proof fn lemma_dedup_last(s: Seq<Seq<char>>)
    requires
        s.len() > 0,
    ensures
        dedup_seq(s).len() > 0,
        dedup_seq(s).last() == s.last(),
    decreases s.len(),
{
    if s.len() > 1 {
        lemma_dedup_last(s.drop_last());
    }
}

/// What inserting into a sorted sequence holds afterwards.
pub proof fn lemma_insert_contains(s: Seq<Seq<char>>, x: Seq<char>)
    ensures
        forall|y: Seq<char>| set_insert(s, x).contains(y) <==> s.contains(y) || y == x,
{
    if !s.contains(x) {
        lemma_insert_pos_bound(s, x);
        let p = insert_pos(s, x) as int;
        let r = s.insert(p, x);
        assert forall|y: Seq<char>| r.contains(y) <==> s.contains(y) || y == x by {
            if r.contains(y) {
                let k = choose|k: int| 0 <= k < r.len() && r[k] == y;
                if k < p {
                    assert(s[k] == y);
                } else if k > p {
                    assert(s[k - 1] == y);
                }
            }
            if s.contains(y) {
                let k = choose|k: int| 0 <= k < s.len() && s[k] == y;
                if k < p {
                    assert(r[k] == y);
                } else {
                    assert(r[k + 1] == y);
                }
            }
            if y == x {
                assert(r[p] == y);
            }
        }
    }
}

/// A set of names that keeps itself in code-point order, so each name occurs
/// once and iteration visits them sorted: what a `BTreeSet<String>` gives.
#[derive(Debug)]
pub struct NameSet {
    names: Vec<String>,
}

impl View for NameSet {
    type V = Seq<Seq<char>>;

    closed spec fn view(&self) -> Seq<Seq<char>> {
        views(self.names@)
    }
}

/// `s` with `x` added, unless it is already there.
pub open spec fn set_insert(s: Seq<Seq<char>>, x: Seq<char>) -> Seq<Seq<char>> {
    if s.contains(x) {
        s
    } else {
        insert_sorted(s, x)
    }
}

proof fn lemma_set_insert_strict(s: Seq<Seq<char>>, x: Seq<char>)
    requires
        strictly_sorted(s),
    ensures
        strictly_sorted(set_insert(s, x)),
{
    if !s.contains(x) {
        assert(sorted(s)) by {
            assert forall|i: int, j: int| 0 <= i < j < s.len() implies !seq_lt(#[trigger] s[j], #[trigger] s[i]) by {
                lemma_lt_asymmetric(s[i], s[j]);
            }
        }
        lemma_insert_sorted_sorted(s, x);
        lemma_insert_pos_bound(s, x);
        let r = insert_sorted(s, x);
        let p = insert_pos(s, x) as int;
        assert forall|i: int, j: int| 0 <= i < j < r.len() implies seq_lt(#[trigger] r[i], #[trigger] r[j]) by {
            lemma_lt_total(r[i], r[j]);
            if r[i] == r[j] {
                if i == p {
                    assert(s[j - 1] == x);
                } else if j == p {
                    if i < p {
                        assert(s[i] == x);
                    } else {
                        assert(s[i - 1] == x);
                    }
                } else {
                    let a = if i < p { i } else { i - 1 };
                    let b = if j < p { j } else { j - 1 };
                    assert(s[a] == r[i]);
                    assert(s[b] == r[j]);
                    lemma_lt_irreflexive(s[a]);
                }
            }
        }
    }
}

impl NameSet {
    #[verifier::type_invariant]
    closed spec fn well_formed(self) -> bool {
        strictly_sorted(views(self.names@))
    }

    pub fn new() -> (r: NameSet)
        ensures
            r@ == Seq::<Seq<char>>::empty(),
            strictly_sorted(r@),
    {
        let r = NameSet { names: Vec::new() };
        assert(views(r.names@) =~= Seq::<Seq<char>>::empty());
        r
    }

    pub fn len(&self) -> (r: usize)
        ensures
            r == self@.len(),
    {
        self.names.len()
    }

    /// The `i`th name, in order.
    pub fn get(&self, i: usize) -> (r: &String)
        requires
            i < self@.len(),
        ensures
            r@ == self@[i as int],
    {
        &self.names[i]
    }

    pub fn contains(&self, name: &str) -> (r: bool)
        ensures
            r == self@.contains(name@),
    {
        let n: usize = self.names.len();
        let mut i: usize = 0;
        while i < n
            invariant
                n == self.names@.len(),
                i <= n,
                forall|k: int| 0 <= k < i ==> self.names@[k]@ != name@,
            decreases n - i,
        {
            if str_eq(self.names[i].as_str(), name) {
                assert(self@[i as int] == name@);
                return true;
            }
            i = i + 1;
        }
        assert forall|k: int| 0 <= k < self@.len() implies self@[k] != name@ by {
            assert(self@[k] == self.names@[k]@);
        }
        false
    }

    pub fn insert(&mut self, name: String)
        ensures
            final(self)@ == set_insert(old(self)@, name@),
            strictly_sorted(final(self)@),
    {
        proof {
            use_type_invariant(&*self);
            lemma_set_insert_strict(self@, name@);
        }
        if !self.contains(name.as_str()) {
            let mut names: Vec<String> = Vec::new();
            std::mem::swap(&mut names, &mut self.names);
            insert_in_order(&mut names, name);
            self.names = names;
        }
    }
}

} // verus!
