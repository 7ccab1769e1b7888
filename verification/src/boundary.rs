//! **Whether a typed value can safely cross a boundary.**
//!
//! One decision procedure, and two policies over it: the resume-capture
//! policy and the remote-call policy ask the same question about the same
//! facts. The question is transferability, not serializability: a handle
//! held open here can be encoded, and means nothing on the other side.
//!
//! The answer has three values, never a bool: an analysis that cannot tell
//! must not be recorded as an analysis that permits.
use vstd::prelude::*;
use vstd::string::*;

use crate::hir::{Decl, Hir};
use crate::privacy::{
    describe_spec, flows_spec, join_spec, restriction_views, violations_spec, Label, Restriction,
    RestrictionView,
};
use crate::ordered::views;
use crate::signatures::Signatures;
use crate::text::{
    find_char, has_prefix, index_of, slice, starts_with, str_eq, trim, trim_bounds, trim_end_char,
    trim_end_char_at,
};

verus! {

/// **What the whole program says about a type, gathered once.**
///
/// A type is a resource because some function declares
/// `resource.acquire<T>` for it, and a type is scoped because the
/// declaration producing it is `session`, `user` or `organization`. Both
/// facts are kept in the order they were found; a later one for the same
/// type is the one that counts.
#[derive(Debug)]
pub struct TypeFacts {
    /// Types some function acquires as a resource, and the path that does.
    resources: Vec<(String, String)>,
    /// Types produced only by a scoped declaration, with the scope.
    scoped: Vec<(String, Restriction)>,
}

/// The facts, as text: each acquired type with its producer, and each
/// scoped type with its scope, in the order they were found.
pub struct TypeFactsView {
    pub resources: Seq<(Seq<char>, Seq<char>)>,
    pub scoped: Seq<(Seq<char>, RestrictionView)>,
}

impl View for TypeFacts {
    type V = TypeFactsView;

    closed spec fn view(&self) -> TypeFactsView {
        TypeFactsView {
            resources: self.resources@.map_values(|p: (String, String)| (p.0@, p.1@)),
            scoped: self.scoped@.map_values(|p: (String, Restriction)| (p.0@, p.1@)),
        }
    }
}

/// The value the last entry for `k` gives, when there is one.
pub open spec fn lookup_last<V>(entries: Seq<(Seq<char>, V)>, k: Seq<char>) -> Option<V>
    decreases entries.len(),
{
    if entries.len() == 0 {
        None
    } else if entries.last().0 == k {
        Some(entries.last().1)
    } else {
        lookup_last(entries.drop_last(), k)
    }
}

/// The type an effect acquires as a resource: `T` in `resource.acquire<T>`.
pub open spec fn acquired_type(effect: Seq<char>) -> Option<Seq<char>> {
    let p = "resource.acquire<"@;
    if has_prefix(effect, p) && effect.len() > p.len() && effect.last() == '>' {
        Some(effect.subrange(p.len() as int, effect.len() - 1))
    } else {
        None
    }
}

/// Each type `effects` acquire, with the path that acquires it, in order.
pub open spec fn acquisitions(path: Seq<char>, effects: Seq<Seq<char>>) -> Seq<(Seq<char>, Seq<char>)>
    decreases effects.len(),
{
    if effects.len() == 0 {
        seq![]
    } else {
        let rest = acquisitions(path, effects.drop_last());
        match acquired_type(effects.last()) {
            Some(ty) => rest.push((ty, path)),
            None => rest,
        }
    }
}

/// The signatures as text: each path with the effects its row names.
pub open spec fn signatures_view(entries: Seq<(String, crate::signatures::Signature)>) -> Seq<
    (Seq<char>, Seq<Seq<char>>),
> {
    entries.map_values(
        |e: (String, crate::signatures::Signature)|
            (e.0@, e.1.effects@.map_values(|x: String| x@)),
    )
}

/// Every resource acquisition the signatures declare, in order.
pub open spec fn resources_spec(sigs: Seq<(Seq<char>, Seq<Seq<char>>)>) -> Seq<(Seq<char>, Seq<char>)>
    decreases sigs.len(),
{
    if sigs.len() == 0 {
        seq![]
    } else {
        resources_spec(sigs.drop_last()) + acquisitions(sigs.last().0, sigs.last().1)
    }
}

/// The scope a visibility keyword gives what a declaration produces.
pub open spec fn visibility_scope(v: Seq<char>) -> Option<RestrictionView> {
    if v == "session"@ {
        Some(RestrictionView::Session("SessionId"@))
    } else if v == "user"@ {
        Some(RestrictionView::User("UserId"@))
    } else if v == "organization"@ {
        Some(RestrictionView::Organization("OrganizationId"@))
    } else {
        None
    }
}

/// `a` up to its first `<`.
pub open spec fn before_lt(a: Seq<char>) -> Seq<char> {
    match index_of(a, '<') {
        Some(i) => a.subrange(0, i),
        None => a,
    }
}

/// Whether a return type's head is a carrier: what crosses is what it
/// carries.
pub open spec fn is_carrier(head: Seq<char>) -> bool {
    head == "Result"@ || head == "Option"@ || head == "List"@
}

/// The nominal type a declaration produces: a carrier's first argument's
/// head, or the return type's head itself.
pub open spec fn produced_type(d: Decl) -> Option<Seq<char>> {
    match d.ret {
        Some(h) => if is_carrier(h@) {
            if d.ret_args@.len() > 0 {
                Some(trim(before_lt(d.ret_args@[0]@)))
            } else {
                None
            }
        } else {
            Some(h@)
        },
        None => None,
    }
}

/// What one declaration contributes to the scoped types.
pub open spec fn scoped_by(d: Decl) -> Seq<(Seq<char>, RestrictionView)> {
    match d.visibility {
        Some(v) => match visibility_scope(v@) {
            Some(r) => match produced_type(d) {
                Some(ty) => seq![(ty, r)],
                None => seq![],
            },
            None => seq![],
        },
        None => seq![],
    }
}

/// What the first `n` declarations contribute, in order.
pub open spec fn scoped_in_decls(decls: Seq<Decl>) -> Seq<(Seq<char>, RestrictionView)>
    decreases decls.len(),
{
    if decls.len() == 0 {
        seq![]
    } else {
        scoped_in_decls(decls.drop_last()) + scoped_by(decls.last())
    }
}

/// What every file contributes, in order.
pub open spec fn scoped_spec(hirs: Seq<&Hir>) -> Seq<(Seq<char>, RestrictionView)>
    decreases hirs.len(),
{
    if hirs.len() == 0 {
        seq![]
    } else {
        scoped_spec(hirs.drop_last()) + scoped_in_decls(hirs.last().decls@)
    }
}

/// The type a written effect acquires as a resource, when it is one.
fn acquired(effect: &str) -> (r: Option<String>)
    ensures
        r matches Some(t) ==> acquired_type(effect@) == Some(t@),
        r is None ==> acquired_type(effect@) is None,
{
    let p: &str = "resource.acquire<";
    proof {
        reveal_strlit("resource.acquire<");
    }
    let n: usize = effect.unicode_len();
    let m: usize = p.unicode_len();
    if starts_with(effect, p) && n > m && effect.get_char(n - 1) == '>' {
        Some(slice(effect, m, n - 1))
    } else {
        None
    }
}

/// The restriction of a visibility keyword.
fn scope_of_visibility(v: &str) -> (r: Option<Restriction>)
    ensures
        r matches Some(x) ==> visibility_scope(v@) == Some(x@),
        r is None ==> visibility_scope(v@) is None,
{
    if str_eq(v, "session") {
        Some(Restriction::Session(String::from_str("SessionId")))
    } else if str_eq(v, "user") {
        Some(Restriction::User(String::from_str("UserId")))
    } else if str_eq(v, "organization") {
        Some(Restriction::Organization(String::from_str("OrganizationId")))
    } else {
        None
    }
}

/// The nominal type a declaration produces.
fn produced(d: &Decl) -> (r: Option<String>)
    ensures
        r matches Some(t) ==> produced_type(*d) == Some(t@),
        r is None ==> produced_type(*d) is None,
{
    match &d.ret {
        Some(h) => {
            let hs: &str = h.as_str();
            if str_eq(hs, "Result") || str_eq(hs, "Option") || str_eq(hs, "List") {
                if d.ret_args.len() > 0 {
                    let a: &str = d.ret_args[0].as_str();
                    let n: usize = a.unicode_len();
                    let e: usize = match find_char(a, '<') {
                        Some(i) => {
                            proof {
                                crate::text::lemma_index_of(a@, '<');
                            }
                            i
                        },
                        None => n,
                    };
                    let (x, y) = trim_bounds(a, 0, e);
                    proof {
                        if index_of(a@, '<') is None {
                            assert(a@.subrange(0, n as int) =~= a@);
                        }
                    }
                    Some(slice(a, x, y))
                } else {
                    None
                }
            } else {
                Some(h.clone())
            }
        },
        None => None,
    }
}

impl TypeFacts {
    /// Gather the facts: every `resource.acquire<T>` a signature declares,
    /// and every type a scoped declaration produces.
    pub fn build(hirs: &[&Hir], sigs: &Signatures) -> (r: TypeFacts)
        ensures
            r@.resources == resources_spec(signatures_view(sigs.entries@)),
            r@.scoped == scoped_spec(hirs@),
    {
        let mut f = TypeFacts { resources: Vec::new(), scoped: Vec::new() };
        let ghost sv = signatures_view(sigs.entries@);
        let n: usize = sigs.entries.len();
        let mut i: usize = 0;
        assert(f@.resources =~= Seq::<(Seq<char>, Seq<char>)>::empty());
        while i < n
            invariant
                n == sigs.entries@.len(),
                i <= n,
                sv == signatures_view(sigs.entries@),
                f@.resources == resources_spec(sv.subrange(0, i as int)),
                f.scoped@.len() == 0,
            decreases n - i,
        {
            let path: &String = &sigs.entries[i].0;
            let effects: &Vec<String> = &sigs.entries[i].1.effects;
            let ghost start = f@.resources;
            let ghost ev = effects@.map_values(|x: String| x@);
            let m: usize = effects.len();
            let mut j: usize = 0;
            while j < m
                invariant
                    m == effects@.len(),
                    j <= m,
                    ev == effects@.map_values(|x: String| x@),
                    f@.resources == start + acquisitions(path@, ev.subrange(0, j as int)),
                    f.scoped@.len() == 0,
                decreases m - j,
            {
                proof {
                    assert(ev.subrange(0, j + 1).drop_last() =~= ev.subrange(0, j as int));
                }
                match acquired(effects[j].as_str()) {
                    Some(ty) => {
                        let ghost prev = f@.resources;
                        let ghost tyv = ty@;
                        let pc: String = path.clone();
                        f.resources.push((ty, pc));
                        proof {
                            assert(ev.subrange(0, j + 1).last() == effects@[j as int]@);
                            assert(f@.resources =~= prev.push((tyv, path@)));
                            assert(f@.resources =~= start + acquisitions(path@, ev.subrange(0, j + 1)));
                        }
                    },
                    None => {},
                }
                j = j + 1;
            }
            proof {
                assert(ev.subrange(0, m as int) =~= ev);
                assert(sv.subrange(0, i + 1).drop_last() =~= sv.subrange(0, i as int));
                assert(sv[i as int] == (path@, ev));
            }
            i = i + 1;
        }
        assert(sv.subrange(0, n as int) =~= sv);

        let k: usize = hirs.len();
        let mut h: usize = 0;
        assert(f@.scoped =~= Seq::<(Seq<char>, RestrictionView)>::empty());
        while h < k
            invariant
                k == hirs@.len(),
                h <= k,
                f@.resources == resources_spec(signatures_view(sigs.entries@)),
                f@.scoped == scoped_spec(hirs@.subrange(0, h as int)),
            decreases k - h,
        {
            let hir: &Hir = hirs[h];
            let ghost start = f@.scoped;
            let m: usize = hir.decls.len();
            let mut j: usize = 0;
            while j < m
                invariant
                    m == hir.decls@.len(),
                    j <= m,
                    f@.resources == resources_spec(signatures_view(sigs.entries@)),
                    f@.scoped == start + scoped_in_decls(hir.decls@.subrange(0, j as int)),
                decreases m - j,
            {
                proof {
                    assert(hir.decls@.subrange(0, j + 1).drop_last() =~= hir.decls@.subrange(0, j as int));
                }
                let d: &Decl = &hir.decls[j];
                let ghost prev = f@.scoped;
                match &d.visibility {
                    Some(v) => match scope_of_visibility(v.as_str()) {
                        Some(restriction) => match produced(d) {
                            Some(ty) => {
                                f.scoped.push((ty, restriction));
                                proof {
                                    assert(f@.scoped =~= prev + scoped_by(*d));
                                }
                            },
                            None => {
                                assert(scoped_by(*d) =~= Seq::<(Seq<char>, RestrictionView)>::empty());
                            },
                        },
                        None => {
                            assert(scoped_by(*d) =~= Seq::<(Seq<char>, RestrictionView)>::empty());
                        },
                    },
                    None => {
                        assert(scoped_by(*d) =~= Seq::<(Seq<char>, RestrictionView)>::empty());
                    },
                }
                proof {
                    assert(f@.scoped =~= start + scoped_in_decls(hir.decls@.subrange(0, j + 1)));
                }
                j = j + 1;
            }
            proof {
                assert(hir.decls@.subrange(0, m as int) =~= hir.decls@);
                assert(hirs@.subrange(0, h + 1).drop_last() =~= hirs@.subrange(0, h as int));
            }
            h = h + 1;
        }
        assert(hirs@.subrange(0, k as int) =~= hirs@);
        f
    }

    /// Is this type one a declaration acquires as a resource? The path that
    /// does, when it is.
    pub fn resource_producer(&self, ty: &str) -> (r: Option<&str>)
        ensures
            r matches Some(p) ==> lookup_last(self@.resources, ty@) == Some(p@),
            r is None ==> lookup_last(self@.resources, ty@) is None,
    {
        let mut i: usize = self.resources.len();
        assert(self@.resources.subrange(0, i as int) =~= self@.resources);
        while i > 0
            invariant
                i <= self.resources@.len(),
                lookup_last(self@.resources, ty@) == lookup_last(self@.resources.subrange(0, i as int), ty@),
            decreases i,
        {
            let ghost s = self@.resources.subrange(0, i as int);
            assert(s.drop_last() =~= self@.resources.subrange(0, i - 1));
            if str_eq(self.resources[i - 1].0.as_str(), ty) {
                return Some(self.resources[i - 1].1.as_str());
            }
            i = i - 1;
        }
        None
    }

    /// The restriction this type carries because of what produces it.
    pub fn produced_scope(&self, ty: &str) -> (r: Option<&Restriction>)
        ensures
            r matches Some(x) ==> lookup_last(self@.scoped, ty@) == Some(x@),
            r is None ==> lookup_last(self@.scoped, ty@) is None,
    {
        let mut i: usize = self.scoped.len();
        assert(self@.scoped.subrange(0, i as int) =~= self@.scoped);
        while i > 0
            invariant
                i <= self.scoped@.len(),
                lookup_last(self@.scoped, ty@) == lookup_last(self@.scoped.subrange(0, i as int), ty@),
            decreases i,
        {
            let ghost s = self@.scoped.subrange(0, i as int);
            assert(s.drop_last() =~= self@.scoped.subrange(0, i - 1));
            if str_eq(self.scoped[i - 1].0.as_str(), ty) {
                return Some(&self.scoped[i - 1].1);
            }
            i = i - 1;
        }
        None
    }
}

// --- taking a written type apart -------------------------------------------

/// A written type's head: what comes before its first `<`, trimmed.
pub open spec fn head_of(w: Seq<char>) -> Seq<char> {
    trim(before_lt(w))
}

/// Every nominal name inside a written type, outermost first: its head,
/// then the names inside each of its comma-separated arguments.
pub open spec fn walk(w: Seq<char>) -> Seq<Seq<char>>
    decreases w.len() + 1, 0nat,
{
    seq![head_of(w)] + match index_of(w, '<') {
        Some(i) => walk_pieces(trim_end_char(w.subrange(i + 1, w.len() as int), '>'), w.len()),
        None => seq![],
    }
}

/// The names inside each comma-separated piece of `s`, in order. `bound`
/// is the length of the type the pieces come from, which every piece is
/// shorter than.
pub open spec fn walk_pieces(s: Seq<char>, bound: nat) -> Seq<Seq<char>>
    decreases bound, s.len(),
{
    let (piece, rest) = match index_of(s, ',') {
        Some(c) => (s.subrange(0, c), Some(s.subrange(c + 1, s.len() as int))),
        None => (s, None),
    };
    let t = trim(piece);
    let here = if 0 < t.len() && t.len() < bound {
        walk(t)
    } else {
        seq![]
    };
    here + match rest {
        Some(r) => if r.len() < s.len() {
            walk_pieces(r, bound)
        } else {
            seq![]
        },
        None => seq![],
    }
}

proof fn lemma_trim_shorter(s: Seq<char>)
    ensures
        trim(s).len() <= s.len(),
{
    lemma_trim_start_shorter(s);
    lemma_trim_end_shorter(crate::text::trim_start(s));
}

proof fn lemma_trim_start_shorter(s: Seq<char>)
    ensures
        crate::text::trim_start(s).len() <= s.len(),
    decreases s.len(),
{
    if s.len() > 0 {
        lemma_trim_start_shorter(s.drop_first());
    }
}

proof fn lemma_trim_end_shorter(s: Seq<char>)
    ensures
        crate::text::trim_end(s).len() <= s.len(),
    decreases s.len(),
{
    if s.len() > 0 {
        lemma_trim_end_shorter(s.drop_last());
    }
}

/// Every nominal name inside a written type, outermost first.
fn walk_names(w: &str) -> (r: Vec<String>)
    ensures
        views(r@) == walk(w@),
    decreases w@.len(),
{
    let n: usize = w.unicode_len();
    let lt: Option<usize> = find_char(w, '<');
    proof {
        crate::text::lemma_index_of(w@, '<');
    }
    let head_end: usize = match lt {
        Some(i) => i,
        None => n,
    };
    let (x, y) = trim_bounds(w, 0, head_end);
    proof {
        if lt is None {
            assert(w@.subrange(0, n as int) =~= w@);
        }
    }
    let mut out: Vec<String> = Vec::new();
    out.push(slice(w, x, y));
    assert(views(out@) =~= seq![head_of(w@)]);
    let i: usize = match lt {
        Some(i) => i,
        None => {
            assert(walk(w@) =~= seq![head_of(w@)]);
            return out;
        },
    };
    let e: usize = trim_end_char_at(w, i + 1, n, '>');
    let ghost total = walk(w@);
    let mut start: usize = i + 1;
    let mut k: usize = i + 1;
    while k < e
        invariant
            n == w@.len(),
            i < n,
            i + 1 <= start <= k <= e <= n,
            forall|q: int| start <= q < k ==> w@[q] != ',',
            total == walk(w@),
            total == seq![head_of(w@)] + walk_pieces(
                trim_end_char(w@.subrange(i + 1, n as int), '>'),
                n as nat,
            ),
            w@.subrange(i + 1, e as int) == trim_end_char(w@.subrange(i + 1, n as int), '>'),
            views(out@) + walk_pieces(w@.subrange(start as int, e as int), n as nat) == total,
        decreases e - k,
    {
        if w.get_char(k) == ',' {
            let ghost s = w@.subrange(start as int, e as int);
            proof {
                crate::text::lemma_index_first(s, ',', k - start);
                assert(s.subrange(0, k - start) =~= w@.subrange(start as int, k as int));
                assert(s.subrange(k - start + 1, s.len() as int) =~= w@.subrange(k + 1, e as int));
            }
            let (a, b) = trim_bounds(w, start, k);
            proof {
                lemma_trim_shorter(w@.subrange(start as int, k as int));
            }
            let ghost before = views(out@);
            if a < b {
                let piece: String = slice(w, a, b);
                let mut sub: Vec<String> = walk_names(piece.as_str());
                out.append(&mut sub);
                proof {
                    assert(views(out@) =~= before + walk(piece@));
                }
            }
            proof {
                assert(views(out@) + walk_pieces(w@.subrange(k + 1, e as int), n as nat) =~= total);
            }
            start = k + 1;
        }
        k = k + 1;
    }
    let ghost s = w@.subrange(start as int, e as int);
    proof {
        crate::text::lemma_index_of(s, ',');
        assert forall|q: int| 0 <= q < s.len() implies s[q] != ',' by {
            assert(s[q] == w@[start + q]);
        }
        if index_of(s, ',') is Some {
            let c = index_of(s, ',')->0;
            assert(s[c] == ',');
        }
    }
    let (a, b) = trim_bounds(w, start, e);
    proof {
        assert(s.subrange(0, s.len() as int) =~= s);
    }
    let ghost before = views(out@);
    if a < b {
        let piece: String = slice(w, a, b);
        let mut sub: Vec<String> = walk_names(piece.as_str());
        out.append(&mut sub);
        proof {
            assert(views(out@) =~= before + walk(piece@));
        }
    }
    proof {
        assert(views(out@) =~= total);
    }
    out
}

/// The first of `names` acquired as a resource, with the path that
/// acquires it.
pub open spec fn first_resource(names: Seq<Seq<char>>, resources: Seq<(Seq<char>, Seq<char>)>) -> Option<
    (Seq<char>, Seq<char>),
>
    decreases names.len(),
{
    if names.len() == 0 {
        None
    } else {
        match lookup_last(resources, names[0]) {
            Some(p) => Some((names[0], p)),
            None => first_resource(names.drop_first(), resources),
        }
    }
}

/// The scope of the first of `names` that a scoped declaration produces.
pub open spec fn first_scope(names: Seq<Seq<char>>, scoped: Seq<(Seq<char>, RestrictionView)>) -> Option<
    RestrictionView,
>
    decreases names.len(),
{
    if names.len() == 0 {
        None
    } else {
        match lookup_last(scoped, names[0]) {
            Some(r) => Some(r),
            None => first_scope(names.drop_first(), scoped),
        }
    }
}

/// **What crossing would cost a value of a written type**, from every
/// nominal name inside it, not just the head: `List<OpenTransaction>`
/// carries whatever `OpenTransaction` carries. The schema names the
/// component that carries the cost, where one does.
pub open spec fn profile_spec(ty: Option<Seq<char>>, facts: TypeFactsView) -> ProfileView {
    match ty {
        None => ProfileView { schema: None, resource: None, produced_scope: None },
        Some(t) => {
            let names = walk(t);
            let res = first_resource(names, facts.resources);
            ProfileView {
                schema: Some(
                    match res {
                        Some(found) => found.0,
                        None => head_of(t),
                    },
                ),
                resource: match res {
                    Some(found) => Some(found.1),
                    None => None,
                },
                produced_scope: first_scope(names, facts.scoped),
            }
        },
    }
}

impl TypeFacts {
    /// **What crossing would cost a value of this type.** `None` is a type
    /// this build could not determine, and it is a real answer rather than
    /// a missing one.
    pub fn profile(&self, ty: Option<&str>) -> (r: TransferProfile)
        ensures
            profile_view(r) == profile_spec(
                match ty {
                    Some(t) => Some(t@),
                    None => None,
                },
                self@,
            ),
    {
        let t: &str = match ty {
            None => {
                return TransferProfile {
                    schema: Schema::Undetermined,
                    resource: None,
                    produced_scope: None,
                };
            },
            Some(t) => t,
        };
        let names: Vec<String> = walk_names(t);
        let ghost nv = views(names@);
        let mut resource: Option<String> = None;
        let mut carrier: Option<String> = None;
        let mut produced_scope: Option<Restriction> = None;
        let n: usize = names.len();
        let mut i: usize = 0;
        assert(nv.subrange(0, n as int) =~= nv);
        while i < n
            invariant
                n == names@.len(),
                nv == views(names@),
                i <= n,
                first_resource(nv, self@.resources) == match resource {
                    Some(p) => match carrier {
                        Some(c) => Some((c@, p@)),
                        None => None,
                    },
                    None => first_resource(nv.subrange(i as int, n as int), self@.resources),
                },
                resource is Some <==> carrier is Some,
                first_scope(nv, self@.scoped) == match produced_scope {
                    Some(r) => Some(r@),
                    None => first_scope(nv.subrange(i as int, n as int), self@.scoped),
                },
            decreases n - i,
        {
            let ghost rest = nv.subrange(i as int, n as int);
            proof {
                assert(rest.drop_first() =~= nv.subrange(i + 1, n as int));
                assert(rest[0] == names@[i as int]@);
            }
            let name: &str = names[i].as_str();
            if resource.is_none() {
                match self.resource_producer(name) {
                    Some(p) => {
                        resource = Some(String::from_str(p));
                        carrier = Some(String::from_str(name));
                    },
                    None => {},
                }
            }
            if produced_scope.is_none() {
                match self.produced_scope(name) {
                    Some(r) => {
                        produced_scope = Some(r.duplicate());
                    },
                    None => {},
                }
            }
            i = i + 1;
        }
        proof {
            assert(nv.subrange(0, n as int) =~= nv);
        }
        let schema_name: String = match carrier {
            Some(c) => c,
            None => {
                let m: usize = t.unicode_len();
                let e: usize = match find_char(t, '<') {
                    Some(j) => {
                        proof {
                            crate::text::lemma_index_of(t@, '<');
                        }
                        j
                    },
                    None => m,
                };
                let (x, y) = trim_bounds(t, 0, e);
                proof {
                    if index_of(t@, '<') is None {
                        assert(t@.subrange(0, m as int) =~= t@);
                    }
                }
                slice(t, x, y)
            },
        };
        TransferProfile { schema: Schema::Named(schema_name), resource, produced_scope }
    }
}

/// Whether a schema can be named for a value at all.
#[derive(Debug, Clone, PartialEq, Eq)]
pub enum Schema {
    /// A nominal type this build can describe on a wire.
    Named(String),
    /// This build could not determine the type. Not "no schema is needed"
    /// and not "any schema will do".
    Undetermined,
}

/// **What one type would cost to move across a boundary.** Per type: what a
/// particular value carries travels in the [`BoundaryContext`].
#[derive(Debug, Clone, PartialEq, Eq)]
pub struct TransferProfile {
    pub schema: Schema,
    /// The path declaring `resource.acquire<T>` for it, where one does.
    pub resource: Option<String>,
    /// A restriction the type carries because only a scoped declaration
    /// produces it.
    pub produced_scope: Option<Restriction>,
}

/// Which boundary, what a value carries across it, and what the far side
/// may hold.
#[derive(Debug, Clone)]
pub struct BoundaryContext {
    pub boundary: Boundary,
    pub direction: Direction,
    /// The label of this value, from the dataflow that produced it.
    pub label: Label,
    /// What the destination is permitted to hold. `None` is "the
    /// destination scope cannot be established".
    pub destination: Option<Label>,
}

#[derive(Debug, Clone, Copy, PartialEq, Eq, Structural)]
pub enum Boundary {
    /// Serialized into a resume manifest, which ships with its document.
    Resume,
    /// Passed across a call between two separately placed components.
    RemoteCall,
}

/// Which way a value moves.
#[derive(Debug, Clone, Copy, PartialEq, Eq, Structural)]
pub enum Direction {
    /// Into the callee: an argument.
    Inbound,
    /// Back to the caller: a result, or an error.
    Outbound,
}

/// **May this value cross?**
#[derive(Debug, Clone, PartialEq, Eq)]
pub enum Crossing {
    /// It may, and nothing about it is in question.
    Proven,
    /// It may not, and the reason names what would be wrong.
    Violation(Violation),
    /// The analysis has no basis to decide. **Not a yes.**
    Blocked(Blocked),
}

#[derive(Debug, Clone, PartialEq, Eq)]
pub enum Violation {
    /// The value IS the thing held open.
    Resource { ty: String, producer: String },
    /// Private data crossing a boundary that does not preserve the
    /// restriction.
    Private { restriction: Restriction },
}

#[derive(Debug, Clone, PartialEq, Eq)]
pub enum Blocked {
    /// No determinable type, so no schema, so no decision.
    UndeterminedSchema,
    /// The value is restricted and the destination's scope is not known.
    UnknownDestination { carries: Vec<Restriction> },
}

/// A crossing's verdict, as text.
pub enum CrossingView {
    Proven,
    Resource(Seq<char>, Seq<char>),
    Private(RestrictionView),
    UndeterminedSchema,
    UnknownDestination(Seq<RestrictionView>),
}

pub open spec fn crossing_view(c: Crossing) -> CrossingView {
    match c {
        Crossing::Proven => CrossingView::Proven,
        Crossing::Violation(Violation::Resource { ty, producer }) => CrossingView::Resource(
            ty@,
            producer@,
        ),
        Crossing::Violation(Violation::Private { restriction }) => CrossingView::Private(
            restriction@,
        ),
        Crossing::Blocked(Blocked::UndeterminedSchema) => CrossingView::UndeterminedSchema,
        Crossing::Blocked(Blocked::UnknownDestination { carries }) => CrossingView::UnknownDestination(
            restriction_views(carries@),
        ),
    }
}

/// A profile, as text: its schema (`None` when undetermined), its resource
/// producer and its produced scope.
pub struct ProfileView {
    pub schema: Option<Seq<char>>,
    pub resource: Option<Seq<char>>,
    pub produced_scope: Option<RestrictionView>,
}

pub open spec fn profile_view(p: TransferProfile) -> ProfileView {
    ProfileView {
        schema: match p.schema {
            Schema::Named(t) => Some(t@),
            Schema::Undetermined => None,
        },
        resource: match p.resource {
            Some(r) => Some(r@),
            None => None,
        },
        produced_scope: match p.produced_scope {
            Some(r) => Some(r@),
            None => None,
        },
    }
}

/// The restrictions a value carries across: its label joined with the scope
/// its type's producer gives it.
pub open spec fn carried_spec(label: Seq<RestrictionView>, produced: Option<RestrictionView>) -> Seq<
    RestrictionView,
> {
    match produced {
        Some(r) => join_spec(label, seq![r]),
        None => label,
    }
}

/// **The one decision procedure.** An undetermined schema blocks; a
/// resource is reported as a resource, even where it is also private; then
/// the label and the producer's scope, joined, must flow into the
/// destination, and a restricted value with no established destination is
/// blocked rather than assumed valid.
pub open spec fn can_cross_spec(
    p: ProfileView,
    label: Seq<RestrictionView>,
    destination: Option<Seq<RestrictionView>>,
) -> CrossingView {
    match p.schema {
        None => CrossingView::UndeterminedSchema,
        Some(ty) => match p.resource {
            Some(producer) => CrossingView::Resource(ty, producer),
            None => {
                let carried = carried_spec(label, p.produced_scope);
                if carried.len() == 0 {
                    CrossingView::Proven
                } else {
                    match destination {
                        Some(dest) => if flows_spec(carried, dest) {
                            CrossingView::Proven
                        } else {
                            CrossingView::Private(violations_spec(carried, dest)[0])
                        },
                        None => CrossingView::UnknownDestination(carried),
                    }
                }
            },
        },
    }
}

/// The view of a context's destination.
pub open spec fn destination_view(d: Option<Label>) -> Option<Seq<RestrictionView>> {
    match d {
        Some(l) => Some(l@),
        None => None,
    }
}

proof fn lemma_violation_exists(a: Seq<RestrictionView>, dest: Seq<RestrictionView>)
    requires
        !flows_spec(a, dest),
    ensures
        violations_spec(a, dest).len() > 0,
    decreases a.len(),
{
    if a.len() > 0 && dest.contains(a.last()) {
        assert(!flows_spec(a.drop_last(), dest)) by {
            if flows_spec(a.drop_last(), dest) {
                assert forall|i: int| 0 <= i < a.len() implies dest.contains(#[trigger] a[i]) by {
                    if i < a.len() - 1 {
                        assert(a[i] == a.drop_last()[i]);
                    }
                }
            }
        }
        lemma_violation_exists(a.drop_last(), dest);
    }
}

/// **May this value cross?** Every fact decides the same way at both
/// boundaries, including privacy; what differs between the policies is what
/// each knows about the destination.
pub fn can_cross(profile: &TransferProfile, ctx: &BoundaryContext) -> (r: Crossing)
    ensures
        crossing_view(r) == can_cross_spec(profile_view(*profile), ctx.label@, destination_view(ctx.destination)),
{
    let ty: &String = match &profile.schema {
        Schema::Undetermined => return Crossing::Blocked(Blocked::UndeterminedSchema),
        Schema::Named(ty) => ty,
    };
    match &profile.resource {
        Some(producer) => {
            return Crossing::Violation(Violation::Resource { ty: ty.clone(), producer: producer.clone() });
        },
        None => {},
    }
    let carried: Label = match &profile.produced_scope {
        Some(r) => ctx.label.join(&Label::of(r.duplicate())),
        None => ctx.label.duplicate(),
    };
    if carried.is_public() {
        return Crossing::Proven;
    }
    match &ctx.destination {
        Some(dest) => {
            if carried.flows_into(dest) {
                Crossing::Proven
            } else {
                let v: Vec<Restriction> = carried.violations(dest);
                proof {
                    lemma_violation_exists(carried@, dest@);
                }
                Crossing::Violation(Violation::Private { restriction: v[0].duplicate() })
            }
        },
        None => Crossing::Blocked(Blocked::UnknownDestination { carries: carried.restrictions() }),
    }
}

// --- the laws of crossing --------------------------------------------------------

/// **Both boundaries decide alike.** The rule is one procedure for a resume
/// manifest and a remote call, in either direction: two contexts that carry
/// the same label to the same destination get the same answer.
pub proof fn both_boundaries_decide_alike(profile: TransferProfile, a: BoundaryContext, b: BoundaryContext)
    requires
        a.label@ == b.label@,
        destination_view(a.destination) == destination_view(b.destination),
    ensures
        can_cross_spec(profile_view(profile), a.label@, destination_view(a.destination)) == can_cross_spec(
            profile_view(profile),
            b.label@,
            destination_view(b.destination),
        ),
{
}

/// **An undetermined schema is never permitted**: it blocks, whatever the
/// value carries and wherever it goes.
pub proof fn an_undetermined_schema_blocks(
    p: ProfileView,
    label: Seq<RestrictionView>,
    destination: Option<Seq<RestrictionView>>,
)
    requires
        p.schema is None,
    ensures
        can_cross_spec(p, label, destination) == CrossingView::UndeterminedSchema,
{
}

/// **A resource crosses neither boundary**, and is reported as a resource
/// even where it is also private.
pub proof fn a_resource_never_crosses(
    p: ProfileView,
    label: Seq<RestrictionView>,
    destination: Option<Seq<RestrictionView>>,
)
    requires
        p.schema is Some,
        p.resource is Some,
    ensures
        can_cross_spec(p, label, destination) == CrossingView::Resource(p.schema->0, p.resource->0),
{
}

/// **A public value of a known type that is no resource always crosses**,
/// even into a destination nobody established.
pub proof fn a_public_value_always_crosses(p: ProfileView, destination: Option<Seq<RestrictionView>>)
    requires
        p.schema is Some,
        p.resource is None,
        p.produced_scope is None,
    ensures
        can_cross_spec(p, Seq::empty(), destination) == CrossingView::Proven,
{
}

/// **A value crosses only into a place that holds every restriction it
/// carries**: each one its label carries, and the scope of the declaration
/// that produces its type. The two are joined, never chosen between.
pub proof fn crossing_keeps_every_restriction(
    p: ProfileView,
    label: Seq<RestrictionView>,
    destination: Option<Seq<RestrictionView>>,
)
    requires
        can_cross_spec(p, label, destination) == CrossingView::Proven,
    ensures
        p.schema is Some,
        p.resource is None,
        forall|k: int|
            0 <= k < label.len() ==> destination is Some && destination->0.contains(#[trigger] label[k]),
        p.produced_scope is Some ==> destination is Some && destination->0.contains(p.produced_scope->0),
{
    let carried = carried_spec(label, p.produced_scope);
    match p.produced_scope {
        Some(r) => {
            crate::privacy::lemma_join_contains(label, seq![r]);
            assert(seq![r].contains(r) ==> carried.contains(r));
            assert(seq![r][0] == r);
        },
        None => {},
    }
    assert forall|k: int| 0 <= k < label.len() implies destination is Some && destination->0.contains(
        #[trigger] label[k],
    ) by {
        assert(label.contains(label[k]));
        assert(carried.contains(label[k]));
        let j = choose|j: int| 0 <= j < carried.len() && carried[j] == label[k];
        assert(carried.len() > 0);
    }
    match p.produced_scope {
        Some(r) => {
            let j = choose|j: int| 0 <= j < carried.len() && carried[j] == r;
            assert(carried.len() > 0);
        },
        None => {},
    }
}

/// **A refusal names a restriction the destination lacks**, and one the
/// value really carries: by its label, or by the scope of its producer.
pub proof fn a_refusal_names_what_is_missing(
    p: ProfileView,
    label: Seq<RestrictionView>,
    destination: Option<Seq<RestrictionView>>,
)
    ensures
        can_cross_spec(p, label, destination) is Private ==> {
            let r = can_cross_spec(p, label, destination)->Private_0;
            &&& destination is Some
            &&& !destination->0.contains(r)
            &&& label.contains(r) || p.produced_scope == Some(r)
        },
{
    let carried = carried_spec(label, p.produced_scope);
    if can_cross_spec(p, label, destination) is Private {
        let d = destination->0;
        crate::privacy::violations_explain_a_failed_flow(carried, d);
        let v = violations_spec(carried, d);
        assert(carried.contains(v[0]) && !d.contains(v[0]));
        match p.produced_scope {
            Some(s) => {
                crate::privacy::lemma_join_contains(label, seq![s]);
                if seq![s].contains(v[0]) {
                    let j = choose|j: int| 0 <= j < 1 && seq![s][j] == v[0];
                    assert(v[0] == s);
                }
            },
            None => {},
        }
    }
}

proof fn lemma_scoped_in_decls_keeps(decls: Seq<Decl>, j: int, x: (Seq<char>, RestrictionView))
    requires
        0 <= j < decls.len(),
        scoped_by(decls[j]).contains(x),
    ensures
        scoped_in_decls(decls).contains(x),
    decreases decls.len(),
{
    let prev = scoped_in_decls(decls.drop_last());
    let here = scoped_by(decls.last());
    if j < decls.len() - 1 {
        assert(decls.drop_last()[j] == decls[j]);
        lemma_scoped_in_decls_keeps(decls.drop_last(), j, x);
        let k = choose|k: int| 0 <= k < prev.len() && prev[k] == x;
        assert((prev + here)[k] == x);
    } else {
        let k = choose|k: int| 0 <= k < here.len() && here[k] == x;
        assert((prev + here)[prev.len() + k] == x);
    }
}

proof fn lemma_scoped_spec_keeps(hirs: Seq<&Hir>, f: int, x: (Seq<char>, RestrictionView))
    requires
        0 <= f < hirs.len(),
        scoped_in_decls(hirs[f].decls@).contains(x),
    ensures
        scoped_spec(hirs).contains(x),
    decreases hirs.len(),
{
    let prev = scoped_spec(hirs.drop_last());
    let here = scoped_in_decls(hirs.last().decls@);
    if f < hirs.len() - 1 {
        assert(hirs.drop_last()[f] == hirs[f]);
        lemma_scoped_spec_keeps(hirs.drop_last(), f, x);
        let k = choose|k: int| 0 <= k < prev.len() && prev[k] == x;
        assert((prev + here)[k] == x);
    } else {
        let k = choose|k: int| 0 <= k < here.len() && here[k] == x;
        assert((prev + here)[prev.len() + k] == x);
    }
}

/// **A scoped declaration scopes what it produces, and a carrier is not
/// what it produces**: a `session`, `user` or `organization` declaration
/// whose return type is `Result<A, ..>`, `Option<A>` or `List<A>` scopes the
/// head of `A`, and one whose return type is any other `T<..>` scopes `T`
/// itself, each under its visibility's scope: `Session(SessionId)`,
/// `User(UserId)` or `Organization(OrganizationId)`. `TypeFacts::build`
/// records it among the scoped types.
pub proof fn a_scoped_declaration_scopes_what_it_produces(hirs: Seq<&Hir>, f: int, j: int, r: RestrictionView)
    requires
        0 <= f < hirs.len(),
        0 <= j < hirs[f].decls@.len(),
        hirs[f].decls@[j].visibility matches Some(v) && {
            ||| v@ == "session"@ && r == RestrictionView::Session("SessionId"@)
            ||| v@ == "user"@ && r == RestrictionView::User("UserId"@)
            ||| v@ == "organization"@ && r == RestrictionView::Organization("OrganizationId"@)
        },
    ensures
        hirs[f].decls@[j].ret matches Some(h) ==> ((h@ == "Result"@ || h@ == "Option"@ || h@ == "List"@)
            && hirs[f].decls@[j].ret_args@.len() > 0 ==> scoped_spec(hirs).contains(
            (head_of(hirs[f].decls@[j].ret_args@[0]@), r),
        )),
        hirs[f].decls@[j].ret matches Some(h) ==> (!(h@ == "Result"@ || h@ == "Option"@ || h@ == "List"@)
            ==> scoped_spec(hirs).contains((h@, r))),
{
    reveal_strlit("session");
    reveal_strlit("user");
    reveal_strlit("organization");
    reveal_strlit("Result");
    reveal_strlit("Option");
    reveal_strlit("List");
    assert("session"@.len() == 7 && "user"@.len() == 4 && "organization"@.len() == 12);
    let d = hirs[f].decls@[j];
    let v = d.visibility.unwrap();
    assert(visibility_scope(v@) == Some(r));
    match d.ret {
        Some(h) => {
            if produced_type(d) is Some {
                let ty = produced_type(d).unwrap();
                assert(scoped_by(d) == seq![(ty, r)]);
                assert(scoped_by(d)[0] == (ty, r));
                assert(scoped_by(d).contains((ty, r)));
                lemma_scoped_in_decls_keeps(hirs[f].decls@, j, (ty, r));
                lemma_scoped_spec_keeps(hirs, f, (ty, r));
            }
        },
        None => {},
    }
}

/// **Only `session`, `user` and `organization` scope what a declaration
/// produces**: a declaration with any other visibility, or none, adds no
/// scoped type.
pub proof fn other_visibilities_scope_nothing(d: Decl)
    requires
        !(d.visibility matches Some(v) && (v@ == "session"@ || v@ == "user"@ || v@ == "organization"@)),
    ensures
        scoped_by(d) == Seq::<(Seq<char>, RestrictionView)>::empty(),
{
}

} // verus!
