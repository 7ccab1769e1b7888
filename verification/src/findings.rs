//! **One finding, one diagnostic**, in source order. Two rules can reach one
//! defect; the first reported is kept, and what is left is ordered by where
//! each diagnostic starts, diagnostics that start at one place in the order
//! they were reported.
use vstd::prelude::*;

use crate::diagnostics::{diagnostic_view, diagnostic_views, Diagnostic, DiagnosticView};
use crate::text::str_eq;

verus! {

/// Two diagnostics report one finding: the same code at the same span.
pub open spec fn same_finding(a: DiagnosticView, b: DiagnosticView) -> bool {
    &&& a.code == b.code
    &&& a.primary_span.start == b.primary_span.start
    &&& a.primary_span.end == b.primary_span.end
}

/// `same_finding`, as a value.
pub open spec fn finding_relation() -> spec_fn(DiagnosticView, DiagnosticView) -> bool {
    |a: DiagnosticView, b: DiagnosticView| same_finding(a, b)
}

/// Where a diagnostic starts, as a value.
pub open spec fn start_of() -> spec_fn(DiagnosticView) -> int {
    |d: DiagnosticView| d.primary_span.start as int
}

/// The first element of each class of `same`, in order.
pub open spec fn first_of_each<T>(ds: Seq<T>, same: spec_fn(T, T) -> bool) -> Seq<T>
    decreases ds.len(),
{
    if ds.len() == 0 {
        ds
    } else if exists|k: int| 0 <= k < ds.len() - 1 && same(#[trigger] ds[k], ds.last()) {
        first_of_each(ds.drop_last(), same)
    } else {
        first_of_each(ds.drop_last(), same).push(ds.last())
    }
}

/// Where `d` goes in `s`: after every element whose key is no larger.
pub open spec fn insert_position<T>(s: Seq<T>, d: T, key: spec_fn(T) -> int) -> int
    decreases s.len(),
{
    if s.len() == 0 {
        0
    } else if key(s.last()) <= key(d) {
        s.len() as int
    } else {
        insert_position(s.drop_last(), d, key)
    }
}

/// `ds` ordered by `key`; elements of one key keep their order.
pub open spec fn by_key<T>(ds: Seq<T>, key: spec_fn(T) -> int) -> Seq<T>
    decreases ds.len(),
{
    if ds.len() == 0 {
        ds
    } else {
        let s = by_key(ds.drop_last(), key);
        s.insert(insert_position(s, ds.last(), key), ds.last())
    }
}

/// What `settle` leaves of `ds`: the first diagnostic of each finding,
/// ordered by where each starts.
pub open spec fn settled(ds: Seq<DiagnosticView>) -> Seq<DiagnosticView> {
    by_key(first_of_each(ds, finding_relation()), start_of())
}

pub open spec fn ordered_by<T>(s: Seq<T>, key: spec_fn(T) -> int) -> bool {
    forall|i: int, j: int| 0 <= i < j < s.len() ==> key(#[trigger] s[i]) <= key(#[trigger] s[j])
}

pub open spec fn one_of_each<T>(s: Seq<T>, same: spec_fn(T, T) -> bool) -> bool {
    forall|i: int, j: int| 0 <= i < j < s.len() ==> !same(#[trigger] s[i], #[trigger] s[j])
}

/// Every element of `a` is one of `b`.
pub open spec fn drawn_from<T>(a: Seq<T>, b: Seq<T>) -> bool {
    forall|i: int| 0 <= i < a.len() ==> #[trigger] b.contains(a[i])
}

/// `b` holds an element of `x`'s class.
pub open spec fn has_like<T>(b: Seq<T>, x: T, same: spec_fn(T, T) -> bool) -> bool {
    exists|j: int| 0 <= j < b.len() && same(x, b[j])
}

/// Every element of `a` has one of its class in `b`.
pub open spec fn covered<T>(a: Seq<T>, b: Seq<T>, same: spec_fn(T, T) -> bool) -> bool {
    forall|k: int| 0 <= k < a.len() ==> #[trigger] has_like(b, a[k], same)
}

proof fn lemma_insert_position<T>(s: Seq<T>, d: T, key: spec_fn(T) -> int)
    ensures
        0 <= insert_position(s, d, key) <= s.len(),
        forall|j: int| insert_position(s, d, key) <= j < s.len() ==> key(d) < key(#[trigger] s[j]),
        insert_position(s, d, key) > 0 ==> key(s[insert_position(s, d, key) - 1]) <= key(d),
    decreases s.len(),
{
    if s.len() > 0 && key(s.last()) > key(d) {
        lemma_insert_position(s.drop_last(), d, key);
        let p = insert_position(s.drop_last(), d, key);
        assert forall|j: int| p <= j < s.len() implies key(d) < key(#[trigger] s[j]) by {
            if j < s.len() - 1 {
                assert(s[j] == s.drop_last()[j]);
            }
        }
        if p > 0 {
            assert(s[p - 1] == s.drop_last()[p - 1]);
        }
    }
}

proof fn lemma_first_of_each<T>(ds: Seq<T>, same: spec_fn(T, T) -> bool)
    requires
        forall|a: T| #[trigger] same(a, a),
        forall|a: T, b: T| #[trigger] same(a, b) ==> same(b, a),
        forall|a: T, b: T, c: T| #[trigger] same(a, b) && #[trigger] same(b, c) ==> same(a, c),
    ensures
        one_of_each(first_of_each(ds, same), same),
        drawn_from(first_of_each(ds, same), ds),
        covered(ds, first_of_each(ds, same), same),
    decreases ds.len(),
{
    if ds.len() > 0 {
        let p = ds.drop_last();
        let x = ds.last();
        lemma_first_of_each(p, same);
        let f = first_of_each(p, same);
        let r = first_of_each(ds, same);
        assert forall|i: int| 0 <= i < p.len() implies #[trigger] ds.contains(p[i]) by {
            assert(ds[i] == p[i]);
        }
        if exists|k: int| 0 <= k < ds.len() - 1 && same(#[trigger] ds[k], ds.last()) {
            let k0 = choose|k: int| 0 <= k < ds.len() - 1 && same(#[trigger] ds[k], ds.last());
            assert(r == f);
            assert forall|i: int| 0 <= i < r.len() implies #[trigger] ds.contains(r[i]) by {
                assert(p.contains(f[i]));
                let j = choose|j: int| 0 <= j < p.len() && p[j] == f[i];
                assert(ds.contains(p[j]));
            }
            assert forall|k: int| 0 <= k < ds.len() implies #[trigger] has_like(r, ds[k], same) by {
                if k < ds.len() - 1 {
                    assert(ds[k] == p[k]);
                    assert(has_like(f, p[k], same));
                } else {
                    assert(p[k0] == ds[k0]);
                    assert(has_like(f, p[k0], same));
                    let j = choose|j: int| 0 <= j < f.len() && same(p[k0], f[j]);
                    assert(same(x, ds[k0]));
                    assert(same(ds[k], r[j]));
                }
            }
        } else {
            assert(r == f.push(x));
            assert forall|i: int| 0 <= i < r.len() implies #[trigger] ds.contains(r[i]) by {
                if i < f.len() {
                    assert(r[i] == f[i]);
                    assert(p.contains(f[i]));
                    let j = choose|j: int| 0 <= j < p.len() && p[j] == f[i];
                    assert(ds.contains(p[j]));
                } else {
                    assert(r[i] == ds[ds.len() - 1]);
                }
            }
            assert forall|i: int, j: int| 0 <= i < j < r.len() implies !same(#[trigger] r[i], #[trigger] r[j]) by {
                if j == r.len() - 1 {
                    assert(r[i] == f[i] && r[j] == x);
                    assert(p.contains(f[i]));
                    let m = choose|m: int| 0 <= m < p.len() && p[m] == f[i];
                    assert(p[m] == ds[m]);
                } else {
                    assert(r[i] == f[i] && r[j] == f[j]);
                }
            }
            assert forall|k: int| 0 <= k < ds.len() implies #[trigger] has_like(r, ds[k], same) by {
                if k < ds.len() - 1 {
                    assert(ds[k] == p[k]);
                    assert(has_like(f, p[k], same));
                    let j = choose|j: int| 0 <= j < f.len() && same(p[k], f[j]);
                    assert(r[j] == f[j]);
                } else {
                    assert(r[r.len() - 1] == x);
                    assert(same(ds[k], r[r.len() - 1]));
                }
            }
        }
    }
}

proof fn lemma_by_key<T>(ds: Seq<T>, key: spec_fn(T) -> int, same: spec_fn(T, T) -> bool)
    requires
        forall|a: T, b: T| #[trigger] same(a, b) ==> same(b, a),
    ensures
        by_key(ds, key).len() == ds.len(),
        ordered_by(by_key(ds, key), key),
        drawn_from(by_key(ds, key), ds),
        drawn_from(ds, by_key(ds, key)),
        one_of_each(ds, same) ==> one_of_each(by_key(ds, key), same),
    decreases ds.len(),
{
    if ds.len() > 0 {
        let p = ds.drop_last();
        let d = ds.last();
        lemma_by_key(p, key, same);
        let s = by_key(p, key);
        lemma_insert_position(s, d, key);
        let q = insert_position(s, d, key);
        let r = by_key(ds, key);
        assert(r == s.insert(q, d));
        assert forall|i: int, j: int| 0 <= i < j < r.len() implies key(#[trigger] r[i]) <= key(#[trigger] r[j]) by {
            if j < q {
                assert(r[i] == s[i] && r[j] == s[j]);
            } else if j == q {
                assert(r[i] == s[i]);
                if i < q - 1 {
                    assert(key(s[i]) <= key(s[q - 1]));
                }
            } else if i < q {
                assert(r[i] == s[i] && r[j] == s[j - 1]);
            } else if i == q {
                assert(r[i] == d && r[j] == s[j - 1]);
            } else {
                assert(r[i] == s[i - 1] && r[j] == s[j - 1]);
            }
        }
        assert forall|i: int| 0 <= i < r.len() implies #[trigger] ds.contains(r[i]) by {
            if i == q {
                assert(r[i] == ds[ds.len() - 1]);
            } else {
                let k = if i < q { i } else { i - 1 };
                assert(r[i] == s[k]);
                assert(p.contains(s[k]));
                let m = choose|m: int| 0 <= m < p.len() && p[m] == s[k];
                assert(ds[m] == p[m]);
            }
        }
        assert forall|i: int| 0 <= i < ds.len() implies #[trigger] r.contains(ds[i]) by {
            if i == ds.len() - 1 {
                assert(ds[i] == r[q]);
            } else {
                assert(ds[i] == p[i]);
                assert(s.contains(p[i]));
                let m = choose|m: int| 0 <= m < s.len() && s[m] == p[i];
                if m < q {
                    assert(r[m] == s[m]);
                } else {
                    assert(r[m + 1] == s[m]);
                }
            }
        }
        if one_of_each(ds, same) {
            assert forall|i: int, j: int| 0 <= i < j < p.len() implies !same(#[trigger] p[i], #[trigger] p[j]) by {
                assert(p[i] == ds[i] && p[j] == ds[j]);
            }
            assert forall|i: int, j: int| 0 <= i < j < r.len() implies !same(#[trigger] r[i], #[trigger] r[j]) by {
                if i == q {
                    assert(r[j] == s[j - 1]);
                    assert(p.contains(s[j - 1]));
                    let m = choose|m: int| 0 <= m < p.len() && p[m] == s[j - 1];
                    assert(p[m] == ds[m]);
                    assert(!same(ds[m], ds[ds.len() - 1]));
                    assert(!same(d, ds[m]));
                } else if j == q {
                    assert(r[i] == s[i]);
                    assert(p.contains(s[i]));
                    let m = choose|m: int| 0 <= m < p.len() && p[m] == s[i];
                    assert(p[m] == ds[m]);
                    assert(!same(ds[m], ds[ds.len() - 1]));
                } else {
                    let a = if i < q { i } else { i - 1 };
                    let b = if j < q { j } else { j - 1 };
                    assert(r[i] == s[a] && r[j] == s[b]);
                }
            }
        }
    }
}

/// **Settling keeps one diagnostic per finding, orders them by where each
/// starts, and loses no finding**: every finding reported is still
/// reported, by a diagnostic that was reported.
pub proof fn settled_is_ordered_and_one_per_finding(ds: Seq<DiagnosticView>)
    ensures
        ordered_by(settled(ds), start_of()),
        one_of_each(settled(ds), finding_relation()),
        drawn_from(settled(ds), ds),
        covered(ds, settled(ds), finding_relation()),
{
    let same = finding_relation();
    let f = first_of_each(ds, same);
    lemma_first_of_each(ds, same);
    lemma_by_key(f, start_of(), same);
    let r = settled(ds);
    assert forall|i: int| 0 <= i < r.len() implies #[trigger] ds.contains(r[i]) by {
        assert(f.contains(r[i]));
        let m = choose|m: int| 0 <= m < f.len() && f[m] == r[i];
        assert(ds.contains(f[m]));
    }
    assert forall|k: int| 0 <= k < ds.len() implies #[trigger] has_like(r, ds[k], same) by {
        assert(has_like(f, ds[k], same));
        let m = choose|m: int| 0 <= m < f.len() && same(ds[k], f[m]);
        assert(r.contains(f[m]));
        let j = choose|j: int| 0 <= j < r.len() && r[j] == f[m];
        assert(same(ds[k], r[j]));
    }
}

/// Whether `a` and `b` report one finding.
fn one_finding(a: &Diagnostic, b: &Diagnostic) -> (r: bool)
    ensures
        r == same_finding(diagnostic_view(*a), diagnostic_view(*b)),
{
    str_eq(a.code, b.code) && a.primary_span.start == b.primary_span.start && a.primary_span.end
        == b.primary_span.end
}

/// **One finding, one diagnostic, in source order**: of the diagnostics
/// that report one finding the first is kept; the rest are ordered by where
/// each starts, keeping the order of those that start at one place.
pub fn settle(ds: Vec<Diagnostic>) -> (r: Vec<Diagnostic>)
    ensures
        diagnostic_views(r@) == settled(diagnostic_views(ds@)),
{
    let ghost all = diagnostic_views(ds@);
    let mut rest = ds;
    let mut kept: Vec<Diagnostic> = Vec::new();
    let n: usize = rest.len();
    let mut i: usize = 0;
    while i < n
        invariant
            n == all.len(),
            i <= n,
            diagnostic_views(rest@) == all.subrange(i as int, n as int),
            diagnostic_views(kept@) == first_of_each(all.subrange(0, i as int), finding_relation()),
        decreases n - i,
    {
        let ghost prefix = all.subrange(0, i as int);
        let ghost next = all.subrange(0, i + 1);
        proof {
            assert(next.drop_last() =~= prefix);
            assert(all.subrange(i as int, n as int)[0] == all[i as int]);
            lemma_first_of_each(prefix, finding_relation());
        }
        let ghost old_rest = rest@;
        assert(diagnostic_views(old_rest).len() == old_rest.len());
        assert(diagnostic_views(old_rest)[0] == diagnostic_view(old_rest[0]));
        let d: Diagnostic = rest.remove(0);
        let ghost dv = diagnostic_view(d);
        assert(dv == all[i as int]);
        assert(diagnostic_views(rest@) =~= diagnostic_views(old_rest).subrange(1, old_rest.len() as int));
        let m: usize = kept.len();
        let mut j: usize = 0;
        let mut found: bool = false;
        while j < m
            invariant
                m == kept@.len(),
                j <= m,
                diagnostic_views(kept@) == first_of_each(prefix, finding_relation()),
                dv == diagnostic_view(d),
                found == exists|t: int| 0 <= t < j && same_finding(#[trigger] diagnostic_view(kept@[t]), dv),
            decreases m - j,
        {
            if one_finding(&kept[j], &d) {
                found = true;
            }
            assert(same_finding(diagnostic_view(kept@[j as int]), dv) ==> found);
            j = j + 1;
        }
        proof {
            let same = finding_relation();
            let f = first_of_each(prefix, same);
            assert(f.len() == m);
            assert(next.last() == dv);
            if found {
                let t = choose|t: int| 0 <= t < m && same_finding(#[trigger] diagnostic_view(kept@[t]), dv);
                assert(f[t] == diagnostic_view(kept@[t]));
                assert(prefix.contains(f[t]));
                let k = choose|k: int| 0 <= k < prefix.len() && prefix[k] == f[t];
                assert(next[k] == prefix[k]);
                assert(same(next[k], next.last()));
                assert(first_of_each(next, same) == f);
            } else {
                assert forall|k: int| 0 <= k < next.len() - 1 implies !same(#[trigger] next[k], next.last()) by {
                    assert(next[k] == prefix[k]);
                    if same_finding(prefix[k], dv) {
                        assert(has_like(f, prefix[k], same));
                        let t = choose|t: int| 0 <= t < f.len() && same(prefix[k], f[t]);
                        assert(f[t] == diagnostic_view(kept@[t]));
                        assert(same_finding(diagnostic_view(kept@[t]), dv));
                    }
                }
                assert(first_of_each(next, same) == f.push(dv));
            }
            assert(diagnostic_views(rest@) =~= all.subrange(i + 1, n as int));
        }
        let ghost before_push = kept@;
        if !found {
            kept.push(d);
            proof {
                assert(kept@ == before_push.push(d));
                assert(diagnostic_views(kept@) =~= first_of_each(prefix, finding_relation()).push(dv));
            }
        }
        i = i + 1;
    }
    proof {
        assert(all.subrange(0, n as int) =~= all);
    }
    let ghost unique = diagnostic_views(kept@);
    let mut out: Vec<Diagnostic> = Vec::new();
    let k: usize = kept.len();
    let mut i: usize = 0;
    while i < k
        invariant
            k == unique.len(),
            i <= k,
            diagnostic_views(kept@) == unique.subrange(i as int, k as int),
            diagnostic_views(out@) == by_key(unique.subrange(0, i as int), start_of()),
        decreases k - i,
    {
        let ghost prefix = unique.subrange(0, i as int);
        proof {
            assert(unique.subrange(0, i + 1).drop_last() =~= prefix);
            assert(unique.subrange(i as int, k as int)[0] == unique[i as int]);
        }
        let ghost old_kept = kept@;
        assert(diagnostic_views(old_kept).len() == old_kept.len());
        assert(diagnostic_views(old_kept)[0] == diagnostic_view(old_kept[0]));
        let d: Diagnostic = kept.remove(0);
        assert(diagnostic_views(kept@) =~= diagnostic_views(old_kept).subrange(1, old_kept.len() as int));
        let ghost s = diagnostic_views(out@);
        let ghost dv = diagnostic_view(d);
        let mut p: usize = out.len();
        assert(s.len() == out@.len());
        while p > 0 && out[p - 1].primary_span.start > d.primary_span.start
            invariant
                p <= out@.len(),
                s == diagnostic_views(out@),
                forall|t: int| p <= t < s.len() ==> dv.primary_span.start < #[trigger] s[t].primary_span.start,
                dv == diagnostic_view(d),
            decreases p,
        {
            assert(s[p - 1] == diagnostic_view(out@[p - 1]));
            p = p - 1;
        }
        assert(p > 0 ==> s[p - 1] == diagnostic_view(out@[p - 1]));
        let ghost old_out = out@;
        proof {
            lemma_position_is_insert_position(s, dv, p as int, start_of());
            assert(diagnostic_views(kept@) =~= unique.subrange(i + 1, k as int));
        }
        out.insert(p, d);
        proof {
            assert(out@ == old_out.insert(p as int, d));
            assert(diagnostic_views(out@) =~= s.insert(p as int, dv));
            assert(by_key(unique.subrange(0, i + 1), start_of()) == s.insert(insert_position(s, dv, start_of()), dv));
        }
        i = i + 1;
    }
    proof {
        assert(unique.subrange(0, k as int) =~= unique);
    }
    out
}

proof fn lemma_position_is_insert_position<T>(s: Seq<T>, d: T, p: int, key: spec_fn(T) -> int)
    requires
        0 <= p <= s.len(),
        forall|t: int| p <= t < s.len() ==> key(d) < key(#[trigger] s[t]),
        p > 0 ==> key(s[p - 1]) <= key(d),
    ensures
        insert_position(s, d, key) == p,
    decreases s.len(),
{
    if s.len() > 0 && p < s.len() {
        assert(key(s.last()) > key(d));
        assert forall|t: int| p <= t < s.len() - 1 implies key(d) < key(#[trigger] s.drop_last()[t]) by {
            assert(s.drop_last()[t] == s[t]);
        }
        if p > 0 {
            assert(s.drop_last()[p - 1] == s[p - 1]);
        }
        lemma_position_is_insert_position(s.drop_last(), d, p, key);
    }
}

} // verus!
