//! **Whether an interface edge can be bound remotely.**
//!
//! Remote capability is a property of an interface edge, not of a
//! component: arguments, results and errors are all checked, in both
//! directions. Local and remote are two questions, so the answer is a struct
//! of two answers rather than one enum.
use vstd::prelude::*;
use vstd::string::*;

use crate::boundary::{
    can_cross, can_cross_spec, crossing_view, is_carrier, profile_spec, Blocked, Boundary,
    BoundaryContext, Crossing, CrossingView, Direction, TypeFacts, TypeFactsView, Violation,
};
use crate::hir::Decl;
use crate::ordered::views;
use crate::privacy::{describe_spec, restriction_views, Label, Restriction, RestrictionView};
use crate::signatures::Signature;
use crate::text::str_eq;

verus! {

/// **What binding modes an interface edge supports.**
#[derive(Debug, Clone, PartialEq, Eq, PartialOrd, Ord)]
pub struct BindingSupport {
    pub local: LocalSupport,
    pub remote: RemoteSupport,
}

/// Whether the edge can be a direct call in one address space.
#[derive(Debug, Clone, PartialEq, Eq, PartialOrd, Ord)]
pub enum LocalSupport {
    /// A direct call: no encoding, no copy, no schema. Always, from the
    /// signature's point of view.
    Direct,
}

/// Whether the edge can cross a process boundary.
#[derive(Debug, Clone, PartialEq, Eq, PartialOrd, Ord)]
pub enum RemoteSupport {
    /// Every value in the signature can cross, in both directions.
    Transferable,
    /// Something in the signature cannot, and here is each one.
    Refused { positions: Vec<Untransferable> },
    /// The analysis has no basis to decide. **Not a no and not a yes.**
    Undetermined { positions: Vec<Untransferable> },
}

/// One position in a signature that cannot cross, and why.
#[derive(Debug, Clone, PartialEq, Eq, PartialOrd, Ord)]
pub struct Untransferable {
    /// `argument 0`, `result`, `error`.
    pub position: String,
    /// The type at that position, where this build knows it.
    pub ty: Option<String>,
    /// What is wrong with it, in one phrase.
    pub reason: String,
}

impl Default for BindingSupport {
    /// What a contract written before the field existed means: a direct
    /// local call, and a transferable remote one.
    fn default() -> (r: BindingSupport)
        ensures
            r.local == LocalSupport::Direct,
            r.remote is Transferable,
    {
        BindingSupport { local: LocalSupport::Direct, remote: RemoteSupport::Transferable }
    }
}

impl RemoteSupport {
    pub fn is_transferable(&self) -> (r: bool)
        ensures
            r == (self is Transferable),
    {
        match self {
            RemoteSupport::Transferable => true,
            _ => false,
        }
    }
}

/// **The positions of one interface edge**, as its declaration writes them.
#[derive(Debug, Clone, Default, PartialEq, Eq)]
pub struct Interface {
    /// Each parameter's declared type, `None` where it carries no
    /// annotation: undetermined, not absent.
    pub params: Vec<Option<String>>,
    /// The declared return type's head, or `None` when nothing is returned:
    /// absent, not undetermined.
    pub returns: Option<String>,
    /// `Result<Store, StoreError>` gives `["Store", "StoreError"]`.
    pub returns_args: Vec<String>,
}

/// A type written from its head and its arguments: `List<MenuItem>`.
pub open spec fn written_spec(head: Seq<char>, args: Seq<Seq<char>>) -> Seq<char> {
    if args.len() == 0 {
        head
    } else {
        head + "<"@ + joined(args, ", "@) + ">"@
    }
}

/// `items` with `sep` between each two.
pub open spec fn joined(items: Seq<Seq<char>>, sep: Seq<char>) -> Seq<char>
    decreases items.len(),
{
    if items.len() == 0 {
        seq![]
    } else if items.len() == 1 {
        items[0]
    } else {
        joined(items.drop_last(), sep) + sep + items.last()
    }
}

/// Append `items` to `out` with `sep` between each two.
fn push_joined(out: &mut String, items: &Vec<String>, sep: &str)
    ensures
        final(out)@ == old(out)@ + joined(views(items@), sep@),
{
    let ghost start = out@;
    let ghost iv = views(items@);
    let n: usize = items.len();
    let mut i: usize = 0;
    while i < n
        invariant
            n == items@.len(),
            i <= n,
            iv == views(items@),
            out@ == start + joined(iv.subrange(0, i as int), sep@),
        decreases n - i,
    {
        proof {
            assert(iv.subrange(0, i + 1).drop_last() =~= iv.subrange(0, i as int));
        }
        if i > 0 {
            out.append(sep);
        }
        out.append(items[i].as_str());
        proof {
            if i == 0 {
                assert(out@ =~= start + joined(iv.subrange(0, 1), sep@));
            } else {
                assert(out@ =~= start + joined(iv.subrange(0, i + 1), sep@));
            }
        }
        i = i + 1;
    }
    assert(iv.subrange(0, n as int) =~= iv);
}

/// A type written from its head and its arguments.
fn written(head: &String, args: &Vec<String>) -> (r: String)
    ensures
        r@ == written_spec(head@, views(args@)),
{
    if args.len() == 0 {
        return head.clone();
    }
    let mut out: String = head.clone();
    out.append("<");
    push_joined(&mut out, args, ", ");
    out.append(">");
    out
}

/// An interface's parts, as text.
pub struct InterfaceView {
    pub params: Seq<Option<Seq<char>>>,
    pub returns: Option<Seq<char>>,
    pub returns_args: Seq<Seq<char>>,
}

pub open spec fn opt_view(o: Option<String>) -> Option<Seq<char>> {
    match o {
        Some(s) => Some(s@),
        None => None,
    }
}

/// Each optional text, as text.
pub open spec fn opt_views(s: Seq<Option<String>>) -> Seq<Option<Seq<char>>> {
    s.map_values(|p: Option<String>| opt_view(p))
}

impl View for Interface {
    type V = InterfaceView;

    open spec fn view(&self) -> InterfaceView {
        InterfaceView {
            params: opt_views(self.params@),
            returns: opt_view(self.returns),
            returns_args: views(self.returns_args@),
        }
    }
}

fn copy_opt(o: &Option<String>) -> (r: Option<String>)
    ensures
        opt_view(r) == opt_view(*o),
{
    match o {
        Some(s) => Some(s.clone()),
        None => None,
    }
}

fn copy_strings(v: &Vec<String>) -> (r: Vec<String>)
    ensures
        views(r@) == views(v@),
{
    let mut out: Vec<String> = Vec::new();
    let n: usize = v.len();
    let mut i: usize = 0;
    while i < n
        invariant
            n == v@.len(),
            i <= n,
            views(out@) == views(v@.subrange(0, i as int)),
        decreases n - i,
    {
        let ghost prev = out@;
        let x: String = v[i].clone();
        out.push(x);
        proof {
            assert(views(out@) =~= views(prev).push(x@));
            assert(views(v@.subrange(0, i + 1)) =~= views(v@.subrange(0, i as int)).push(x@));
        }
        i = i + 1;
    }
    assert(v@.subrange(0, n as int) =~= v@);
    out
}

/// The interface a declaration writes.
pub open spec fn interface_of_spec(decl: Decl) -> InterfaceView {
    InterfaceView {
        params: Seq::new(
            decl.params@.len(),
            |k: int|
                match decl.params@[k].ty {
                    Some(h) => Some(written_spec(h@, views(decl.params@[k].ty_args@))),
                    None => None,
                },
        ),
        returns: opt_view(decl.ret),
        returns_args: views(decl.ret_args@),
    }
}

impl Interface {
    /// From a declaration, the form every component kind has: each
    /// parameter's type reassembled from its head and its arguments, and the
    /// declared return type.
    pub fn of(decl: &Decl) -> (r: Interface)
        ensures
            r@ == interface_of_spec(*decl),
    {
        let mut params: Vec<Option<String>> = Vec::new();
        let n: usize = decl.params.len();
        let mut i: usize = 0;
        while i < n
            invariant
                n == decl.params@.len(),
                i <= n,
                params@.len() == i,
                forall|k: int|
                    0 <= k < i ==> #[trigger] opt_view(params@[k]) == match decl.params@[k].ty {
                        Some(h) => Some(written_spec(h@, views(decl.params@[k].ty_args@))),
                        None => None,
                    },
            decreases n - i,
        {
            let p = &decl.params[i];
            let t: Option<String> = match &p.ty {
                Some(head) => Some(written(head, &p.ty_args)),
                None => None,
            };
            params.push(t);
            i = i + 1;
        }
        let r = Interface {
            params,
            returns: copy_opt(&decl.ret),
            returns_args: copy_strings(&decl.ret_args),
        };
        assert(r@.params =~= interface_of_spec(*decl).params);
        r
    }

    /// From a resolved signature.
    pub fn from_signature(sig: &Signature) -> (r: Interface)
        ensures
            r@.params == opt_views(sig.params@),
            r@.returns == opt_view(sig.returns),
            r@.returns_args == views(sig.returns_args@),
    {
        let mut params: Vec<Option<String>> = Vec::new();
        let n: usize = sig.params.len();
        let mut i: usize = 0;
        while i < n
            invariant
                n == sig.params@.len(),
                i <= n,
                opt_views(params@) == opt_views(sig.params@.subrange(
                    0,
                    i as int,
                )),
            decreases n - i,
        {
            let ghost prev = params@;
            let x: Option<String> = copy_opt(&sig.params[i]);
            params.push(x);
            proof {
                assert(opt_views(params@) =~= opt_views(prev).push(opt_view(x)));
                assert(opt_views(sig.params@.subrange(0, i + 1)) =~= opt_views(sig.params@.subrange(0, i as int)).push(opt_view(x)));
                assert(opt_views(params@) =~= opt_views(sig.params@.subrange(
                    0,
                    i + 1,
                )));
            }
            i = i + 1;
        }
        assert(sig.params@.subrange(0, n as int) =~= sig.params@);
        Interface {
            params,
            returns: copy_opt(&sig.returns),
            returns_args: copy_strings(&sig.returns_args),
        }
    }
}

// --- the remote-call policy -------------------------------------------------

/// A digit, as text.
pub open spec fn digit_text(d: nat) -> Seq<char> {
    if d == 0 {
        "0"@
    } else if d == 1 {
        "1"@
    } else if d == 2 {
        "2"@
    } else if d == 3 {
        "3"@
    } else if d == 4 {
        "4"@
    } else if d == 5 {
        "5"@
    } else if d == 6 {
        "6"@
    } else if d == 7 {
        "7"@
    } else if d == 8 {
        "8"@
    } else {
        "9"@
    }
}

/// A number in decimal.
pub open spec fn decimal(n: nat) -> Seq<char>
    decreases n,
{
    if n < 10 {
        digit_text(n)
    } else {
        decimal(n / 10) + digit_text(n % 10)
    }
}

fn digit(d: usize) -> (r: &'static str)
    requires
        d < 10,
    ensures
        r@ == digit_text(d as nat),
{
    if d == 0 {
        "0"
    } else if d == 1 {
        "1"
    } else if d == 2 {
        "2"
    } else if d == 3 {
        "3"
    } else if d == 4 {
        "4"
    } else if d == 5 {
        "5"
    } else if d == 6 {
        "6"
    } else if d == 7 {
        "7"
    } else if d == 8 {
        "8"
    } else {
        "9"
    }
}

/// `n` in decimal.
pub fn decimal_text(n: usize) -> (r: String)
    ensures
        r@ == decimal(n as nat),
    decreases n,
{
    if n < 10 {
        String::from_str(digit(n))
    } else {
        let mut s: String = decimal_text(n / 10);
        s.append(digit(n % 10));
        s
    }
}

/// The restrictions, as a message lists them: `A and B`.
pub open spec fn listed(rs: Seq<RestrictionView>) -> Seq<char>
    decreases rs.len(),
{
    if rs.len() == 0 {
        seq![]
    } else if rs.len() == 1 {
        describe_spec(rs[0])
    } else {
        listed(rs.drop_last()) + " and "@ + describe_spec(rs.last())
    }
}

/// Why a resource cannot cross, after its producer's name.
pub const RESOURCE_REASON: &'static str = "` acquires it as a resource, so the value IS the thing held open and cannot be reconstructed elsewhere";

/// Why an undetermined type cannot be decided.
pub const NO_SCHEMA_REASON: &'static str = "this build could not determine the type, so it has no wire schema";

/// Why a restricted type on a remote edge cannot be decided, after what it
/// carries.
pub const UNKNOWN_DESTINATION_REASON: &'static str = " and this build cannot establish the destination's privacy scope";

/// One position's verdict, as text.
pub struct UntransferableView {
    pub position: Seq<char>,
    pub ty: Option<Seq<char>>,
    pub reason: Seq<char>,
}

pub open spec fn untransferable_view(u: Untransferable) -> UntransferableView {
    UntransferableView { position: u.position@, ty: opt_view(u.ty), reason: u.reason@ }
}

/// What one position reports: nothing when it crosses; otherwise whether
/// it is refused (rather than undetermined), and why.
pub open spec fn report(position: Seq<char>, ty: Option<Seq<char>>, v: CrossingView) -> Option<
    (bool, UntransferableView),
> {
    match v {
        CrossingView::Proven => None,
        CrossingView::Resource(t, producer) => Some(
            (true, UntransferableView { position, ty: Some(t), reason: "`"@ + producer + RESOURCE_REASON@ }),
        ),
        CrossingView::Private(r) => Some(
            (
                true,
                UntransferableView {
                    position,
                    ty,
                    reason: "it carries a "@ + describe_spec(r) + " restriction"@,
                },
            ),
        ),
        CrossingView::UndeterminedSchema => Some(
            (false, UntransferableView { position, ty: None, reason: NO_SCHEMA_REASON@ }),
        ),
        CrossingView::UnknownDestination(cs) => Some(
            (
                false,
                UntransferableView {
                    position,
                    ty,
                    reason: "it carries "@ + listed(cs) + UNKNOWN_DESTINATION_REASON@,
                },
            ),
        ),
    }
}

/// A remote edge's verdict for a value of type `ty`: public, because an
/// interface says what types cross and not which values; with no
/// destination, because a build has no deployment in evidence.
pub open spec fn remote_verdict(ty: Option<Seq<char>>, facts: TypeFactsView) -> CrossingView {
    can_cross_spec(profile_spec(ty, facts), Seq::empty(), None)
}

/// The name of the `k`th position of a carrier's arguments.
pub open spec fn carried_position(k: int) -> Seq<char> {
    if k == 1 {
        "error"@
    } else {
        "result"@
    }
}

/// Every position of an interface, in order, with the type at it: each
/// argument, then what the result carries.
pub open spec fn positions(i: InterfaceView) -> Seq<(Seq<char>, Option<Seq<char>>)> {
    Seq::new(i.params.len(), |k: int| ("argument "@ + decimal(k as nat), i.params[k])) + match i.returns {
        None => seq![],
        Some(h) => if is_carrier(h) {
            if i.returns_args.len() == 0 {
                seq![("result"@, None)]
            } else {
                Seq::new(
                    i.returns_args.len(),
                    |k: int| (carried_position(k), Some(i.returns_args[k])),
                )
            }
        } else {
            seq![("result"@, Some(h))]
        },
    }
}

/// The positions refused (`refused` true) or undetermined (false), in order.
pub open spec fn reports_of(
    ps: Seq<(Seq<char>, Option<Seq<char>>)>,
    facts: TypeFactsView,
    refused: bool,
) -> Seq<UntransferableView>
    decreases ps.len(),
{
    if ps.len() == 0 {
        seq![]
    } else {
        let rest = reports_of(ps.drop_last(), facts, refused);
        match report(ps.last().0, ps.last().1, remote_verdict(ps.last().1, facts)) {
            Some((r, u)) => if r == refused {
                rest.push(u)
            } else {
                rest
            },
            None => rest,
        }
    }
}

/// A remote support, as text.
pub enum RemoteView {
    Transferable,
    Refused(Seq<UntransferableView>),
    Undetermined(Seq<UntransferableView>),
}

pub open spec fn remote_view(r: RemoteSupport) -> RemoteView {
    match r {
        RemoteSupport::Transferable => RemoteView::Transferable,
        RemoteSupport::Refused { positions } => RemoteView::Refused(untransferable_views(positions@)),
        RemoteSupport::Undetermined { positions } => RemoteView::Undetermined(
            untransferable_views(positions@),
        ),
    }
}

/// **Can this interface be called across a process boundary?** Refused if
/// any position is refused, undetermined if any is undetermined, and
/// transferable only when every position crosses.
pub open spec fn remote_spec(i: InterfaceView, facts: TypeFactsView) -> RemoteView {
    let refused = reports_of(positions(i), facts, true);
    let undetermined = reports_of(positions(i), facts, false);
    if refused.len() > 0 {
        RemoteView::Refused(refused)
    } else if undetermined.len() > 0 {
        RemoteView::Undetermined(undetermined)
    } else {
        RemoteView::Transferable
    }
}

fn opt_text(o: Option<&str>) -> (r: Option<String>)
    ensures
        opt_view(r) == match o {
            Some(s) => Some(s@),
            None => None,
        },
{
    match o {
        Some(s) => Some(String::from_str(s)),
        None => None,
    }
}

/// Append what one position reports to the refused or the undetermined list.
fn consider(
    facts: &TypeFacts,
    position: String,
    ty: Option<&str>,
    direction: Direction,
    refused: &mut Vec<Untransferable>,
    undetermined: &mut Vec<Untransferable>,
)
    ensures
        ({
            let tv = match ty {
                Some(s) => Some(s@),
                None => None,
            };
            let rv = report(position@, tv, remote_verdict(tv, facts@));
            &&& untransferable_views(final(refused)@) == match rv {
                Some((true, u)) => untransferable_views(old(refused)@).push(u),
                _ => untransferable_views(old(refused)@),
            }
            &&& untransferable_views(final(undetermined)@) == match rv {
                Some((false, u)) => untransferable_views(old(undetermined)@).push(u),
                _ => untransferable_views(old(undetermined)@),
            }
        }),
{
    let ghost tv = match ty {
        Some(s) => Some(s@),
        None => None,
    };
    let profile = facts.profile(ty);
    let verdict = can_cross(
        &profile,
        &BoundaryContext {
            boundary: Boundary::RemoteCall,
            direction,
            label: Label::public(),
            // Unknowable at build time: a build has no deployment in evidence.
            destination: None,
        },
    );
    let ghost r0 = untransferable_views(refused@);
    let ghost u0 = untransferable_views(undetermined@);
    match verdict {
        Crossing::Proven => {},
        Crossing::Violation(Violation::Resource { ty: t, producer }) => {
            let mut reason: String = String::from_str("`");
            reason.append(producer.as_str());
            reason.append(RESOURCE_REASON);
            refused.push(Untransferable { position, ty: Some(t), reason });
            proof {
                assert(untransferable_views(refused@) =~= r0.push(
                    untransferable_view(refused@.last()),
                ));
            }
        },
        Crossing::Violation(Violation::Private { restriction }) => {
            let mut reason: String = String::from_str("it carries a ");
            reason.append(restriction.describe().as_str());
            reason.append(" restriction");
            refused.push(Untransferable { position, ty: opt_text(ty), reason });
            proof {
                assert(untransferable_views(refused@) =~= r0.push(
                    untransferable_view(refused@.last()),
                ));
            }
        },
        Crossing::Blocked(Blocked::UndeterminedSchema) => {
            undetermined.push(
                Untransferable { position, ty: None, reason: String::from_str(NO_SCHEMA_REASON) },
            );
            proof {
                assert(untransferable_views(undetermined@) =~= u0.push(
                    untransferable_view(undetermined@.last()),
                ));
            }
        },
        // Restricted, and a build cannot say where the far end is: not a
        // refusal, and not a yes.
        Crossing::Blocked(Blocked::UnknownDestination { carries }) => {
            let mut reason: String = String::from_str("it carries ");
            let ghost start = reason@;
            let ghost cv = restriction_views(carries@);
            let n: usize = carries.len();
            let mut i: usize = 0;
            while i < n
                invariant
                    n == carries@.len(),
                    i <= n,
                    cv == restriction_views(carries@),
                    reason@ == start + listed(cv.subrange(0, i as int)),
                decreases n - i,
            {
                proof {
                    assert(cv.subrange(0, i + 1).drop_last() =~= cv.subrange(0, i as int));
                }
                if i > 0 {
                    reason.append(" and ");
                }
                reason.append(carries[i].describe().as_str());
                proof {
                    if i == 0 {
                        assert(reason@ =~= start + listed(cv.subrange(0, 1)));
                    } else {
                        assert(reason@ =~= start + listed(cv.subrange(0, i + 1)));
                    }
                }
                i = i + 1;
            }
            proof {
                assert(cv.subrange(0, n as int) =~= cv);
            }
            reason.append(UNKNOWN_DESTINATION_REASON);
            undetermined.push(Untransferable { position, ty: opt_text(ty), reason });
            proof {
                assert(untransferable_views(undetermined@) =~= u0.push(
                    untransferable_view(undetermined@.last()),
                ));
            }
        },
    }
}

proof fn lemma_step(ps: Seq<(Seq<char>, Option<Seq<char>>)>, k: int, facts: TypeFactsView)
    requires
        0 <= k < ps.len(),
    ensures
        reports_of(ps.subrange(0, k + 1), facts, true) == match report(ps[k].0, ps[k].1, remote_verdict(ps[k].1, facts)) {
            Some((true, u)) => reports_of(ps.subrange(0, k), facts, true).push(u),
            _ => reports_of(ps.subrange(0, k), facts, true),
        },
        reports_of(ps.subrange(0, k + 1), facts, false) == match report(ps[k].0, ps[k].1, remote_verdict(ps[k].1, facts)) {
            Some((false, u)) => reports_of(ps.subrange(0, k), facts, false).push(u),
            _ => reports_of(ps.subrange(0, k), facts, false),
        },
{
    assert(ps.subrange(0, k + 1).drop_last() =~= ps.subrange(0, k));
}

/// The views of a list of untransferable positions.
pub open spec fn untransferable_views(v: Seq<Untransferable>) -> Seq<UntransferableView> {
    v.map_values(|u: Untransferable| untransferable_view(u))
}

/// **Can this interface be called across a process boundary?**
///
/// Every position, in both directions: each argument inbound, and what the
/// result carries outbound. The result and the error are separate
/// positions; a carrier's head is not itself a position. No return type
/// means nothing crosses outbound, which is not undetermined.
pub fn remote_support(sig: &Interface, facts: &TypeFacts) -> (r: RemoteSupport)
    ensures
        remote_view(r) == remote_spec(sig@, facts@),
{
    let ghost ps = positions(sig@);
    let mut refused: Vec<Untransferable> = Vec::new();
    let mut undetermined: Vec<Untransferable> = Vec::new();
    let n: usize = sig.params.len();
    let mut k: usize = 0;
    assert(untransferable_views(refused@) =~= reports_of(ps.subrange(0, 0), facts@, true));
    assert(untransferable_views(undetermined@) =~= reports_of(ps.subrange(0, 0), facts@, false));
    while k < n
        invariant
            n == sig.params@.len(),
            k <= n,
            ps == positions(sig@),
            untransferable_views(refused@) == reports_of(ps.subrange(0, k as int), facts@, true),
            untransferable_views(undetermined@) == reports_of(ps.subrange(0, k as int), facts@, false),
        decreases n - k,
    {
        let mut position: String = String::from_str("argument ");
        position.append(decimal_text(k).as_str());
        let ty: Option<&str> = match &sig.params[k] {
            Some(t) => Some(t.as_str()),
            None => None,
        };
        proof {
            assert(ps[k as int] == (position@, sig@.params[k as int]));
            lemma_step(ps, k as int, facts@);
        }
        consider(facts, position, ty, Direction::Inbound, &mut refused, &mut undetermined);
        k = k + 1;
    }
    let ghost base = n as int;
    match &sig.returns {
        None => {
            assert(ps.subrange(0, base) =~= ps);
        },
        Some(h) => {
            let hs: &str = h.as_str();
            if str_eq(hs, "Result") || str_eq(hs, "Option") || str_eq(hs, "List") {
                let m: usize = sig.returns_args.len();
                if m == 0 {
                    proof {
                        assert(ps[base] == ("result"@, None::<Seq<char>>));
                        lemma_step(ps, base, facts@);
                        assert(ps.subrange(0, base + 1) =~= ps);
                    }
                    consider(facts, String::from_str("result"), None, Direction::Outbound, &mut refused, &mut undetermined);
                } else {
                    let mut j: usize = 0;
                    while j < m
                        invariant
                            m == sig.returns_args@.len(),
                            n == sig.params@.len(),
                            base == n,
                            j <= m,
                            ps == positions(sig@),
                            ps.len() == base + m,
                            sig@.returns matches Some(hv) && is_carrier(hv),
                            untransferable_views(refused@) == reports_of(ps.subrange(0, base + j), facts@, true),
                            untransferable_views(undetermined@) == reports_of(ps.subrange(0, base + j), facts@, false),
                        decreases m - j,
                    {
                        let name: &str = if j == 1 {
                            "error"
                        } else {
                            "result"
                        };
                        proof {
                            assert(ps[base + j] == (carried_position(j as int), Some(sig@.returns_args[j as int])));
                            lemma_step(ps, base + j, facts@);
                        }
                        consider(
                            facts,
                            String::from_str(name),
                            Some(sig.returns_args[j].as_str()),
                            Direction::Outbound,
                            &mut refused,
                            &mut undetermined,
                        );
                        j = j + 1;
                    }
                    assert(ps.subrange(0, base + m) =~= ps);
                }
            } else {
                proof {
                    assert(ps[base] == ("result"@, Some(h@)));
                    lemma_step(ps, base, facts@);
                    assert(ps.subrange(0, base + 1) =~= ps);
                }
                consider(facts, String::from_str("result"), Some(hs), Direction::Outbound, &mut refused, &mut undetermined);
            }
        },
    }
    if refused.len() > 0 {
        RemoteSupport::Refused { positions: refused }
    } else if undetermined.len() > 0 {
        RemoteSupport::Undetermined { positions: undetermined }
    } else {
        RemoteSupport::Transferable
    }
}

/// The binding support of one exported declaration: always a direct local
/// call, and remote as its interface permits.
pub fn binding_support(decl: &Decl, facts: &TypeFacts) -> (r: BindingSupport)
    ensures
        r.local == LocalSupport::Direct,
        remote_view(r.remote) == remote_spec(interface_of_spec(*decl), facts@),
{
    BindingSupport { local: LocalSupport::Direct, remote: remote_support(&Interface::of(decl), facts) }
}

// --- the laws of the remote-call policy -----------------------------------------

/// A verdict that refuses a position: it cannot cross, and here is why.
pub open spec fn refuses(v: CrossingView) -> bool {
    v is Resource || v is Private
}

/// A verdict that leaves a position undecided: no basis to say.
pub open spec fn undecided(v: CrossingView) -> bool {
    v is UndeterminedSchema || v is UnknownDestination
}

proof fn lemma_reports_empty(ps: Seq<(Seq<char>, Option<Seq<char>>)>, facts: TypeFactsView)
    ensures
        reports_of(ps, facts, true).len() == 0 <==> forall|k: int|
            0 <= k < ps.len() ==> !refuses(#[trigger] remote_verdict(ps[k].1, facts)),
        reports_of(ps, facts, false).len() == 0 <==> forall|k: int|
            0 <= k < ps.len() ==> !undecided(#[trigger] remote_verdict(ps[k].1, facts)),
    decreases ps.len(),
{
    if ps.len() > 0 {
        let init = ps.drop_last();
        lemma_reports_empty(init, facts);
        let last = ps.len() - 1;
        assert forall|k: int| 0 <= k < init.len() implies #[trigger] remote_verdict(init[k].1, facts)
            == remote_verdict(ps[k].1, facts) by {
            assert(init[k] == ps[k]);
        }
        let v = remote_verdict(ps[last].1, facts);
        assert(ps.last() == ps[last]);
        if !(forall|k: int| 0 <= k < ps.len() ==> !refuses(#[trigger] remote_verdict(ps[k].1, facts))) {
            let k = choose|k: int| 0 <= k < ps.len() && refuses(#[trigger] remote_verdict(ps[k].1, facts));
            if k < last {
                assert(refuses(remote_verdict(init[k].1, facts)));
            }
        }
        if !(forall|k: int| 0 <= k < ps.len() ==> !undecided(#[trigger] remote_verdict(ps[k].1, facts))) {
            let k = choose|k: int| 0 <= k < ps.len() && undecided(#[trigger] remote_verdict(ps[k].1, facts));
            if k < last {
                assert(undecided(remote_verdict(init[k].1, facts)));
            }
        }
    }
}

/// **An edge is transferable only when every position crosses**: each
/// argument inbound, and what the result carries outbound.
pub proof fn transferable_iff_every_position_crosses(i: InterfaceView, facts: TypeFactsView)
    ensures
        remote_spec(i, facts) is Transferable <==> forall|k: int|
            0 <= k < positions(i).len() ==> #[trigger] remote_verdict(positions(i)[k].1, facts)
                == CrossingView::Proven,
{
    lemma_reports_empty(positions(i), facts);
    let ps = positions(i);
    assert forall|k: int| 0 <= k < ps.len() implies (#[trigger] remote_verdict(ps[k].1, facts)
        == CrossingView::Proven <==> !refuses(remote_verdict(ps[k].1, facts)) && !undecided(
        remote_verdict(ps[k].1, facts),
    )) by {}
}

/// **One position that cannot cross refuses the whole edge**, whatever the
/// others say; and an undecided position leaves the edge undetermined,
/// never refused and never transferable, when no position refuses.
pub proof fn one_refusal_refuses_the_edge(i: InterfaceView, facts: TypeFactsView)
    ensures
        remote_spec(i, facts) is Refused <==> exists|k: int|
            0 <= k < positions(i).len() && refuses(#[trigger] remote_verdict(positions(i)[k].1, facts)),
        remote_spec(i, facts) is Undetermined <==> (forall|k: int|
            0 <= k < positions(i).len() ==> !refuses(#[trigger] remote_verdict(positions(i)[k].1, facts)))
            && exists|k: int|
            0 <= k < positions(i).len() && undecided(#[trigger] remote_verdict(positions(i)[k].1, facts)),
{
    lemma_reports_empty(positions(i), facts);
}

} // verus!
