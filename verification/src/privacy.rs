//! Privacy labels: which restrictions a value carries, and where it may flow.
//!
//! A label is the set of restrictions on a value. `Public` carries none and
//! flows anywhere; a restricted value flows only into a destination that
//! carries every one of its restrictions, so `Session<A>` flows into
//! `Session<A>` and not into `Public` or `Session<B>`.
use vstd::prelude::*;
use vstd::string::*;

use crate::text::str_eq;

verus! {

/// One restriction a value can carry, with the identity it is scoped to.
#[derive(Debug, Clone, PartialEq, Eq, PartialOrd, Ord)]
pub enum Restriction {
    Session(String),
    User(String),
    Organization(String),
    Secret(String),
}

/// A restriction, as text.
pub enum RestrictionView {
    Session(Seq<char>),
    User(Seq<char>),
    Organization(Seq<char>),
    Secret(Seq<char>),
}

impl View for Restriction {
    type V = RestrictionView;

    open spec fn view(&self) -> RestrictionView {
        match self {
            Restriction::Session(s) => RestrictionView::Session(s@),
            Restriction::User(s) => RestrictionView::User(s@),
            Restriction::Organization(s) => RestrictionView::Organization(s@),
            Restriction::Secret(s) => RestrictionView::Secret(s@),
        }
    }
}

/// How a restriction reads in a message: `Session<SessionId>`.
pub open spec fn describe_spec(r: RestrictionView) -> Seq<char> {
    match r {
        RestrictionView::Session(s) => "Session<"@ + s + ">"@,
        RestrictionView::User(s) => "User<"@ + s + ">"@,
        RestrictionView::Organization(s) => "Organization<"@ + s + ">"@,
        RestrictionView::Secret(s) => "Secret<"@ + s + ">"@,
    }
}

impl Restriction {
    /// The same restriction, as a new value.
    pub fn duplicate(&self) -> (r: Restriction)
        ensures
            r@ == self@,
    {
        match self {
            Restriction::Session(s) => Restriction::Session(s.clone()),
            Restriction::User(s) => Restriction::User(s.clone()),
            Restriction::Organization(s) => Restriction::Organization(s.clone()),
            Restriction::Secret(s) => Restriction::Secret(s.clone()),
        }
    }

    /// Whether two restrictions are the same.
    pub fn same(&self, other: &Restriction) -> (r: bool)
        ensures
            r == (self@ == other@),
    {
        match (self, other) {
            (Restriction::Session(a), Restriction::Session(b)) => str_eq(a.as_str(), b.as_str()),
            (Restriction::User(a), Restriction::User(b)) => str_eq(a.as_str(), b.as_str()),
            (Restriction::Organization(a), Restriction::Organization(b)) => str_eq(
                a.as_str(),
                b.as_str(),
            ),
            (Restriction::Secret(a), Restriction::Secret(b)) => str_eq(a.as_str(), b.as_str()),
            _ => false,
        }
    }

    /// How the restriction reads in a message: `Session<SessionId>`.
    pub fn describe(&self) -> (r: String)
        ensures
            r@ == describe_spec(self@),
    {
        let (kind, name) = match self {
            Restriction::Session(s) => ("Session<", s),
            Restriction::User(s) => ("User<", s),
            Restriction::Organization(s) => ("Organization<", s),
            Restriction::Secret(s) => ("Secret<", s),
        };
        let mut out: String = String::from_str(kind);
        out.append(name.as_str());
        out.append(">");
        out
    }
}

/// The restrictions of a label, each once, in the order they were added.
#[derive(Debug, Clone)]
pub struct Label {
    restrictions: Vec<Restriction>,
}

/// The restrictions, as text.
pub open spec fn restriction_views(v: Seq<Restriction>) -> Seq<RestrictionView> {
    v.map_values(|r: Restriction| r@)
}

impl View for Label {
    type V = Seq<RestrictionView>;

    closed spec fn view(&self) -> Seq<RestrictionView> {
        restriction_views(self.restrictions@)
    }
}

/// `a` followed by each restriction of `b` that `a` does not already carry.
pub open spec fn join_spec(a: Seq<RestrictionView>, b: Seq<RestrictionView>) -> Seq<RestrictionView>
    decreases b.len(),
{
    if b.len() == 0 {
        a
    } else {
        let r = join_spec(a, b.drop_last());
        if r.contains(b.last()) {
            r
        } else {
            r.push(b.last())
        }
    }
}

/// Everything `a` carries, `dest` carries too.
pub open spec fn flows_spec(a: Seq<RestrictionView>, dest: Seq<RestrictionView>) -> bool {
    forall|i: int| 0 <= i < a.len() ==> dest.contains(#[trigger] a[i])
}

/// The restrictions of `a` that `dest` does not carry, in order.
pub open spec fn violations_spec(a: Seq<RestrictionView>, dest: Seq<RestrictionView>) -> Seq<
    RestrictionView,
>
    decreases a.len(),
{
    if a.len() == 0 {
        seq![]
    } else {
        let r = violations_spec(a.drop_last(), dest);
        if dest.contains(a.last()) {
            r
        } else {
            r.push(a.last())
        }
    }
}

impl Label {
    /// Carries nothing, and flows anywhere.
    pub fn public() -> (r: Label)
        ensures
            r@ == Seq::<RestrictionView>::empty(),
    {
        let r = Label { restrictions: Vec::new() };
        assert(r@ =~= Seq::<RestrictionView>::empty());
        r
    }

    /// Exactly the one restriction.
    pub fn of(r: Restriction) -> (l: Label)
        ensures
            l@ == seq![r@],
    {
        let l = Label { restrictions: vec![r] };
        assert(l@ =~= seq![r@]);
        l
    }

    /// Scoped to the session `id`.
    pub fn session(id: &str) -> (l: Label)
        ensures
            l@ == seq![RestrictionView::Session(id@)],
    {
        Label::of(Restriction::Session(String::from_str(id)))
    }

    /// Scoped to the user `id`.
    pub fn user(id: &str) -> (l: Label)
        ensures
            l@ == seq![RestrictionView::User(id@)],
    {
        Label::of(Restriction::User(String::from_str(id)))
    }

    /// Scoped to the organization `id`.
    pub fn organization(id: &str) -> (l: Label)
        ensures
            l@ == seq![RestrictionView::Organization(id@)],
    {
        Label::of(Restriction::Organization(String::from_str(id)))
    }

    /// A secret of the domain `id`.
    pub fn secret(id: &str) -> (l: Label)
        ensures
            l@ == seq![RestrictionView::Secret(id@)],
    {
        Label::of(Restriction::Secret(String::from_str(id)))
    }

    pub fn is_public(&self) -> (r: bool)
        ensures
            r == (self@.len() == 0),
    {
        self.restrictions.len() == 0
    }

    /// Whether the label carries `r`.
    pub fn carries(&self, r: &Restriction) -> (b: bool)
        ensures
            b == self@.contains(r@),
    {
        let n: usize = self.restrictions.len();
        let mut i: usize = 0;
        while i < n
            invariant
                n == self.restrictions@.len(),
                i <= n,
                forall|k: int| 0 <= k < i ==> self@[k] != r@,
            decreases n - i,
        {
            if self.restrictions[i].same(r) {
                assert(self@[i as int] == r@);
                return true;
            }
            i = i + 1;
        }
        false
    }

    /// Everything either label carries.
    pub fn join(&self, other: &Label) -> (r: Label)
        ensures
            r@ == join_spec(self@, other@),
    {
        let mut out: Vec<Restriction> = Vec::new();
        let n: usize = self.restrictions.len();
        let mut i: usize = 0;
        while i < n
            invariant
                n == self.restrictions@.len(),
                i <= n,
                restriction_views(out@) == self@.subrange(0, i as int),
            decreases n - i,
        {
            let ghost prev = out@;
            out.push(self.restrictions[i].duplicate());
            assert(restriction_views(out@) =~= restriction_views(prev).push(self@[i as int]));
            i = i + 1;
        }
        assert(self@.subrange(0, n as int) =~= self@);
        let m: usize = other.restrictions.len();
        let mut j: usize = 0;
        while j < m
            invariant
                m == other.restrictions@.len(),
                j <= m,
                restriction_views(out@) == join_spec(self@, other@.subrange(0, j as int)),
            decreases m - j,
        {
            let ghost before = other@.subrange(0, j as int);
            let ghost after = other@.subrange(0, j + 1);
            assert(after.drop_last() =~= before);
            let partial = Label { restrictions: out };
            let present: bool = partial.carries(&other.restrictions[j]);
            out = partial.restrictions;
            if !present {
                let ghost prev = out@;
                out.push(other.restrictions[j].duplicate());
                assert(restriction_views(out@) =~= restriction_views(prev).push(other@[j as int]));
            }
            j = j + 1;
        }
        assert(other@.subrange(0, m as int) =~= other@);
        Label { restrictions: out }
    }

    /// Whether a value with this label may flow into a place that holds
    /// `dest`: everything it carries, the destination carries too.
    pub fn flows_into(&self, dest: &Label) -> (r: bool)
        ensures
            r == flows_spec(self@, dest@),
    {
        let n: usize = self.restrictions.len();
        let mut i: usize = 0;
        while i < n
            invariant
                n == self.restrictions@.len(),
                i <= n,
                forall|k: int| 0 <= k < i ==> dest@.contains(#[trigger] self@[k]),
            decreases n - i,
        {
            if !dest.carries(&self.restrictions[i]) {
                assert(!dest@.contains(self@[i as int]));
                return false;
            }
            i = i + 1;
        }
        true
    }

    /// The restrictions this label carries that `dest` does not, in order:
    /// why a flow fails.
    pub fn violations(&self, dest: &Label) -> (r: Vec<Restriction>)
        ensures
            restriction_views(r@) == violations_spec(self@, dest@),
    {
        let mut out: Vec<Restriction> = Vec::new();
        let n: usize = self.restrictions.len();
        let mut i: usize = 0;
        while i < n
            invariant
                n == self.restrictions@.len(),
                i <= n,
                restriction_views(out@) == violations_spec(self@.subrange(0, i as int), dest@),
            decreases n - i,
        {
            let ghost before = self@.subrange(0, i as int);
            let ghost after = self@.subrange(0, i + 1);
            assert(after.drop_last() =~= before);
            if !dest.carries(&self.restrictions[i]) {
                let ghost prev = out@;
                out.push(self.restrictions[i].duplicate());
                assert(restriction_views(out@) =~= restriction_views(prev).push(self@[i as int]));
            }
            i = i + 1;
        }
        assert(self@.subrange(0, n as int) =~= self@);
        out
    }

    /// The same label, as a new value.
    pub fn duplicate(&self) -> (r: Label)
        ensures
            r@ == self@,
    {
        Label { restrictions: self.restrictions() }
    }

    /// The restrictions this label carries, in order.
    pub fn restrictions(&self) -> (r: Vec<Restriction>)
        ensures
            restriction_views(r@) == self@,
    {
        let mut out: Vec<Restriction> = Vec::new();
        let n: usize = self.restrictions.len();
        let mut i: usize = 0;
        while i < n
            invariant
                n == self.restrictions@.len(),
                i <= n,
                restriction_views(out@) == self@.subrange(0, i as int),
            decreases n - i,
        {
            let ghost prev = out@;
            out.push(self.restrictions[i].duplicate());
            assert(restriction_views(out@) =~= restriction_views(prev).push(self@[i as int]));
            i = i + 1;
        }
        assert(self@.subrange(0, n as int) =~= self@);
        out
    }
}

// --- the laws of the flow relation ---------------------------------------------

/// A sequence with one more element holds what it held, and that element.
proof fn lemma_push_contains(s: Seq<RestrictionView>, x: RestrictionView)
    ensures
        forall|y: RestrictionView| s.push(x).contains(y) <==> s.contains(y) || y == x,
{
    assert forall|y: RestrictionView| s.push(x).contains(y) <==> s.contains(y) || y == x by {
        if s.push(x).contains(y) {
            let k = choose|k: int| 0 <= k < s.len() + 1 && s.push(x)[k] == y;
            if k < s.len() {
                assert(s[k] == y);
            }
        }
        if s.contains(y) {
            let k = choose|k: int| 0 <= k < s.len() && s[k] == y;
            assert(s.push(x)[k] == y);
        }
        if y == x {
            assert(s.push(x)[s.len() as int] == y);
        }
    }
}

proof fn lemma_drop_last_contains(s: Seq<RestrictionView>)
    requires
        s.len() > 0,
    ensures
        forall|y: RestrictionView| s.contains(y) <==> s.drop_last().contains(y) || y == s.last(),
{
    assert(s.drop_last().push(s.last()) =~= s);
    lemma_push_contains(s.drop_last(), s.last());
}

/// What a join carries: exactly what either side carries.
pub proof fn lemma_join_contains(a: Seq<RestrictionView>, b: Seq<RestrictionView>)
    ensures
        forall|x: RestrictionView| #[trigger] join_spec(a, b).contains(x) <==> a.contains(x) || b.contains(x),
    decreases b.len(),
{
    if b.len() > 0 {
        lemma_join_contains(a, b.drop_last());
        lemma_drop_last_contains(b);
        let r = join_spec(a, b.drop_last());
        lemma_push_contains(r, b.last());
        assert forall|x: RestrictionView| #[trigger] join_spec(a, b).contains(x) <==> a.contains(x) || b.contains(x) by {
            assert(r.contains(x) <==> a.contains(x) || b.drop_last().contains(x));
            assert(b.contains(x) <==> b.drop_last().contains(x) || x == b.last());
            if r.contains(b.last()) {
                assert(join_spec(a, b) == r);
            } else {
                assert(join_spec(a, b) == r.push(b.last()));
            }
        }
    }
}

/// Why a flow fails: exactly the restrictions the value carries and the
/// destination does not.
pub proof fn lemma_violations_contains(a: Seq<RestrictionView>, dest: Seq<RestrictionView>)
    ensures
        forall|x: RestrictionView|
            #[trigger] violations_spec(a, dest).contains(x) <==> a.contains(x) && !dest.contains(x),
    decreases a.len(),
{
    if a.len() > 0 {
        lemma_violations_contains(a.drop_last(), dest);
        lemma_drop_last_contains(a);
        let r = violations_spec(a.drop_last(), dest);
        lemma_push_contains(r, a.last());
        assert forall|x: RestrictionView|
            #[trigger] violations_spec(a, dest).contains(x) <==> a.contains(x) && !dest.contains(x) by {
            assert(r.contains(x) <==> a.drop_last().contains(x) && !dest.contains(x));
            assert(a.contains(x) <==> a.drop_last().contains(x) || x == a.last());
            if dest.contains(a.last()) {
                assert(violations_spec(a, dest) == r);
            } else {
                assert(violations_spec(a, dest) == r.push(a.last()));
            }
        }
    }
}

/// **A public value flows anywhere.**
pub proof fn public_flows_anywhere(dest: Seq<RestrictionView>)
    ensures
        flows_spec(Seq::empty(), dest),
{
}

/// **A value flows into a place that holds exactly its own restrictions**:
/// `Session<A>` into `Session<A>`.
pub proof fn flows_is_reflexive(a: Seq<RestrictionView>)
    ensures
        flows_spec(a, a),
{
    assert forall|i: int| 0 <= i < a.len() implies a.contains(#[trigger] a[i]) by {}
}

/// **Flows compose**: what may flow into `b` may flow wherever `b` may.
pub proof fn flows_is_transitive(a: Seq<RestrictionView>, b: Seq<RestrictionView>, c: Seq<RestrictionView>)
    requires
        flows_spec(a, b),
        flows_spec(b, c),
    ensures
        flows_spec(a, c),
{
    assert forall|i: int| 0 <= i < a.len() implies c.contains(#[trigger] a[i]) by {
        assert(b.contains(a[i]));
        let k = choose|k: int| 0 <= k < b.len() && b[k] == a[i];
        assert(c.contains(b[k]));
    }
}

/// **Joining is the safe direction**: each side flows into the join, and
/// the join flows into any place both sides may flow into. Joining can only
/// make a value more private, never less.
pub proof fn join_is_least_upper_bound(a: Seq<RestrictionView>, b: Seq<RestrictionView>, c: Seq<RestrictionView>)
    ensures
        flows_spec(a, join_spec(a, b)),
        flows_spec(b, join_spec(a, b)),
        flows_spec(a, c) && flows_spec(b, c) ==> flows_spec(join_spec(a, b), c),
{
    lemma_join_contains(a, b);
    let j = join_spec(a, b);
    assert forall|i: int| 0 <= i < a.len() implies j.contains(#[trigger] a[i]) by {
        assert(a.contains(a[i]));
    }
    assert forall|i: int| 0 <= i < b.len() implies j.contains(#[trigger] b[i]) by {
        assert(b.contains(b[i]));
    }
    if flows_spec(a, c) && flows_spec(b, c) {
        assert forall|i: int| 0 <= i < j.len() implies c.contains(#[trigger] j[i]) by {
            assert(j.contains(j[i]));
            if a.contains(j[i]) {
                let k = choose|k: int| 0 <= k < a.len() && a[k] == j[i];
                assert(c.contains(a[k]));
            } else {
                let k = choose|k: int| 0 <= k < b.len() && b[k] == j[i];
                assert(c.contains(b[k]));
            }
        }
    }
}

/// **A failed flow names what is missing**: a flow fails exactly when some
/// restriction the value carries is not carried by the destination, and
/// each one it names is such a restriction.
pub proof fn violations_explain_a_failed_flow(a: Seq<RestrictionView>, dest: Seq<RestrictionView>)
    ensures
        flows_spec(a, dest) <==> violations_spec(a, dest).len() == 0,
        forall|i: int|
            0 <= i < violations_spec(a, dest).len() ==> a.contains(#[trigger] violations_spec(a, dest)[i])
                && !dest.contains(violations_spec(a, dest)[i]),
{
    lemma_violations_contains(a, dest);
    let v = violations_spec(a, dest);
    assert forall|i: int| 0 <= i < v.len() implies a.contains(#[trigger] v[i]) && !dest.contains(v[i]) by {
        assert(v.contains(v[i]));
    }
    if flows_spec(a, dest) && v.len() > 0 {
        assert(v.contains(v[0]));
        let k = choose|k: int| 0 <= k < a.len() && a[k] == v[0];
        assert(dest.contains(a[k]));
    }
    if !flows_spec(a, dest) {
        let i = choose|i: int| 0 <= i < a.len() && !dest.contains(#[trigger] a[i]);
        assert(a.contains(a[i]));
        assert(v.contains(a[i]));
    }
}

} // verus!
