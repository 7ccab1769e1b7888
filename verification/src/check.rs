//! What the checker reads of a lowered program before any analysis runs: the
//! units it was handed, the names the program knows as constructors, and the
//! small structural facts about declarations, blocks and markup that the
//! rules share.
use vstd::prelude::*;

use crate::codes::registry;
use crate::diagnostics::{copy_span, diagnostic_view, diagnostic_views, Detector, Diagnostic, DiagnosticView, Related, Repair, Severity, Span};
use crate::hir::{Attr, AttrValue, Body, Decl, DeclKind, Expr, Hir, Node};
use crate::ordered::{lemma_insert_contains, set_insert, strictly_sorted, views, NameSet};
use crate::privacy::{Label, RestrictionView};
use crate::signatures::{first_for, Signatures};
use crate::text::{has_prefix, index_of, slice, starts_with, str_eq, trim, trim_char};

verus! {

/// One source file that has been parsed and lowered.
#[derive(Debug, Clone)]
pub struct Unit {
    pub path: String,
    pub src: String,
    pub hir: Hir,
}

// --- the constructor environment ---------------------------------------------

/// The language's own constructors, which every program has.
pub open spec fn builtin_constructor(x: Seq<char>) -> bool {
    x == "Some"@ || x == "None"@ || x == "Ok"@ || x == "Err"@
}

/// The cases a declaration declares, by name.
pub open spec fn decl_cases(d: Decl) -> Seq<Seq<char>> {
    match d.variants {
        Some(vs) => vs@.map_values(|v: crate::hir::Variant| v.name@),
        None => seq![],
    }
}

/// Whether one of the first `n` declarations declares a case named `x`.
pub open spec fn cases_among(decls: Seq<Decl>, n: int, x: Seq<char>) -> bool {
    exists|k: int| 0 <= k < n && #[trigger] decl_cases(decls[k]).contains(x)
}

/// Whether a declaration of one of the first `n` units declares a case
/// named `x`.
pub open spec fn cases_in_units(units: Seq<Unit>, n: int, x: Seq<char>) -> bool {
    exists|u: int| 0 <= u < n && cases_among(#[trigger] units[u].hir.decls@, units[u].hir.decls@.len() as int, x)
}

/// **Every name some type in the program has as a constructor**: each
/// declared sum type's cases, and the language's own `Some`, `None`, `Ok`
/// and `Err`. A bare name in a pattern that is one of these is a
/// constructor, never a fresh binding.
///
/// The set of units passed to one invocation is treated as one program.
#[derive(Debug)]
pub struct Env {
    constructors: NameSet,
}

impl View for Env {
    type V = Seq<Seq<char>>;

    closed spec fn view(&self) -> Seq<Seq<char>> {
        self.constructors@
    }
}

fn insert_name(out: &mut NameSet, name: &str)
    ensures
        strictly_sorted(final(out)@),
        forall|y: Seq<char>| #[trigger] final(out)@.contains(y) <==> old(out)@.contains(y) || y == name@,
{
    proof {
        lemma_insert_contains(out@, name@);
    }
    out.insert(String::from_str(name));
}

fn insert_cases(out: &mut NameSet, d: &Decl)
    requires
        strictly_sorted(old(out)@),
    ensures
        strictly_sorted(final(out)@),
        forall|y: Seq<char>|
            #[trigger] final(out)@.contains(y) <==> old(out)@.contains(y) || decl_cases(*d).contains(y),
{
    match &d.variants {
        Some(vs) => {
            let ghost start = out@;
            let n: usize = vs.len();
            let mut i: usize = 0;
            while i < n
                invariant
                    n == vs@.len(),
                    i <= n,
                    d.variants == Some(*vs),
                    strictly_sorted(out@),
                    forall|y: Seq<char>|
                        #[trigger] out@.contains(y) <==> start.contains(y) || (exists|k: int|
                            0 <= k < i && #[trigger] vs@[k].name@ == y),
                decreases n - i,
            {
                insert_name(out, vs[i].name.as_str());
                i = i + 1;
            }
            proof {
                let cases = decl_cases(*d);
                assert forall|y: Seq<char>| (exists|k: int| 0 <= k < n && #[trigger] vs@[k].name@ == y) <==> cases.contains(y) by {
                    if exists|k: int| 0 <= k < n && #[trigger] vs@[k].name@ == y {
                        let k = choose|k: int| 0 <= k < n && #[trigger] vs@[k].name@ == y;
                        assert(cases[k] == y);
                    }
                    if cases.contains(y) {
                        let k = choose|k: int| 0 <= k < cases.len() && cases[k] == y;
                        assert(vs@[k].name@ == y);
                    }
                }
            }
        },
        None => {},
    }
}

impl Env {
    /// The constructor names of every unit's declarations, with the
    /// language's own.
    pub fn build(units: &[Unit]) -> (r: Env)
        ensures
            strictly_sorted(r@),
            forall|x: Seq<char>|
                #[trigger] r@.contains(x) <==> builtin_constructor(x) || cases_in_units(
                    units@,
                    units@.len() as int,
                    x,
                ),
    {
        let mut constructors: NameSet = NameSet::new();
        insert_name(&mut constructors, "Some");
        insert_name(&mut constructors, "None");
        insert_name(&mut constructors, "Ok");
        insert_name(&mut constructors, "Err");
        let n: usize = units.len();
        let mut i: usize = 0;
        while i < n
            invariant
                n == units@.len(),
                i <= n,
                strictly_sorted(constructors@),
                forall|x: Seq<char>|
                    #[trigger] constructors@.contains(x) <==> builtin_constructor(x) || cases_in_units(
                        units@,
                        i as int,
                        x,
                    ),
            decreases n - i,
        {
            let decls: &Vec<Decl> = &units[i].hir.decls;
            let ghost before = constructors@;
            let m: usize = decls.len();
            let mut j: usize = 0;
            while j < m
                invariant
                    m == decls@.len(),
                    j <= m,
                    strictly_sorted(constructors@),
                    forall|x: Seq<char>|
                        #[trigger] constructors@.contains(x) <==> before.contains(x) || cases_among(
                            decls@,
                            j as int,
                            x,
                        ),
                decreases m - j,
            {
                let ghost prev = constructors@;
                insert_cases(&mut constructors, &decls[j]);
                proof {
                    assert forall|x: Seq<char>|
                        #[trigger] constructors@.contains(x) <==> before.contains(x) || cases_among(
                            decls@,
                            j + 1,
                            x,
                        ) by {
                        if cases_among(decls@, j + 1, x) && !cases_among(decls@, j as int, x) {
                            let k = choose|k: int| 0 <= k < j + 1 && #[trigger] decl_cases(decls@[k]).contains(x);
                            assert(k == j);
                        }
                        if decl_cases(decls@[j as int]).contains(x) {
                            assert(cases_among(decls@, j + 1, x));
                        }
                        if cases_among(decls@, j as int, x) {
                            let k = choose|k: int| 0 <= k < j && #[trigger] decl_cases(decls@[k]).contains(x);
                            assert(cases_among(decls@, j + 1, x));
                        }
                    }
                }
                j = j + 1;
            }
            proof {
                assert forall|x: Seq<char>|
                    #[trigger] constructors@.contains(x) <==> builtin_constructor(x) || cases_in_units(
                        units@,
                        i + 1,
                        x,
                    ) by {
                    if cases_in_units(units@, i + 1, x) && !cases_in_units(units@, i as int, x) {
                        let u = choose|u: int|
                            0 <= u < i + 1 && cases_among(
                                #[trigger] units@[u].hir.decls@,
                                units@[u].hir.decls@.len() as int,
                                x,
                            );
                        assert(u == i);
                    }
                    if cases_among(decls@, m as int, x) {
                        assert(cases_in_units(units@, i + 1, x));
                    }
                    if cases_in_units(units@, i as int, x) {
                        let u = choose|u: int|
                            0 <= u < i && cases_among(
                                #[trigger] units@[u].hir.decls@,
                                units@[u].hir.decls@.len() as int,
                                x,
                            );
                        assert(cases_in_units(units@, i + 1, x));
                    }
                }
            }
            i = i + 1;
        }
        Env { constructors }
    }

    /// The names the program knows as constructors, sorted, each once.
    pub fn constructors(&self) -> (r: Vec<String>)
        ensures
            views(r@) == self@,
    {
        let n: usize = self.constructors.len();
        let mut out: Vec<String> = Vec::new();
        let mut i: usize = 0;
        while i < n
            invariant
                n == self@.len(),
                i <= n,
                views(out@) == self@.subrange(0, i as int),
            decreases n - i,
        {
            let ghost prev = out@;
            out.push(self.constructors.get(i).clone());
            proof {
                assert(views(out@) =~= views(prev).push(self@[i as int]));
                assert(self@.subrange(0, i + 1) =~= self@.subrange(0, i as int).push(self@[i as int]));
            }
            i = i + 1;
        }
        assert(self@.subrange(0, n as int) =~= self@);
        out
    }

    /// Whether any type this program knows has a constructor of this name.
    pub fn names_a_constructor(&self, name: &str) -> (r: bool)
        ensures
            r == self@.contains(name@),
    {
        self.constructors.contains(name)
    }
}

// --- what a match concluded --------------------------------------------------

/// What the exhaustiveness analysis concluded about one `match`.
///
/// `Blocked` is not a violation and emphatically not a proof: it says the
/// analysis produced no answer.
#[derive(Debug, Clone, PartialEq, Eq)]
pub enum MatchOutcome {
    /// The analysis ran and every value is covered.
    Proven,
    /// The analysis ran and these values are not.
    NonExhaustive { missing: Vec<String> },
    /// The analysis did not run. Never read this as coverage.
    Blocked { reason: String },
}

/// One `match`, with what the analysis concluded and where it is.
#[derive(Debug, Clone)]
pub struct MatchAnalysis {
    /// The declaration the match is written in.
    pub declaration: String,
    /// The scrutinee's type as the program declares it, when it has one.
    pub scrutinee_type: Option<String>,
    pub span: Span,
    pub outcome: MatchOutcome,
    /// Each arm no value reaches, by its pattern. Empty where the analysis
    /// did not run.
    pub unreachable: Vec<Span>,
}

// --- declarations --------------------------------------------------------------

/// Declarations that define a type.
pub fn declares_a_type(kind: DeclKind) -> (r: bool)
    ensures
        r == (kind == DeclKind::Type || kind == DeclKind::Opaque),
{
    match kind {
        DeclKind::Type | DeclKind::Opaque => true,
        _ => false,
    }
}

/// The lifetimes a piece of work can be scoped to, outermost first.
#[derive(Debug, Clone, Copy, PartialEq, Eq, Structural)]
pub enum ScopeKind {
    Application,
    Session,
    Route,
    Request,
    Component,
    /// One block: the narrowest there is.
    Block,
}

/// The ambient scope a declaration's body runs in.
pub open spec fn ambient_scope_spec(kind: DeclKind) -> ScopeKind {
    match kind {
        DeclKind::View | DeclKind::Component => ScopeKind::Component,
        DeclKind::Page => ScopeKind::Route,
        DeclKind::Query | DeclKind::Command => ScopeKind::Request,
        DeclKind::Subscription => ScopeKind::Session,
        _ => ScopeKind::Block,
    }
}

/// The ambient scope a declaration's body runs in. A `view` and a
/// `component` live as long as their component, a `page` for a route, a
/// `query` or `command` for one request; anything unrecognised is treated as
/// the narrowest scope, so an escape is never silently accepted.
pub fn ambient_scope(decl: &Decl) -> (r: ScopeKind)
    ensures
        r == ambient_scope_spec(decl.kind),
{
    match decl.kind {
        DeclKind::View | DeclKind::Component => ScopeKind::Component,
        DeclKind::Page => ScopeKind::Route,
        DeclKind::Query | DeclKind::Command => ScopeKind::Request,
        DeclKind::Subscription => ScopeKind::Session,
        _ => ScopeKind::Block,
    }
}

/// The scope a `scope` clause names.
pub open spec fn named_scope_spec(name: Seq<char>) -> Option<ScopeKind> {
    if name == "application"@ {
        Some(ScopeKind::Application)
    } else if name == "session"@ {
        Some(ScopeKind::Session)
    } else if name == "route"@ {
        Some(ScopeKind::Route)
    } else if name == "request"@ {
        Some(ScopeKind::Request)
    } else if name == "component"@ {
        Some(ScopeKind::Component)
    } else {
        None
    }
}

/// The scope a `scope` clause names, when it names one.
pub fn named_scope(name: &str) -> (r: Option<ScopeKind>)
    ensures
        r == named_scope_spec(name@),
{
    if str_eq(name, "application") {
        Some(ScopeKind::Application)
    } else if str_eq(name, "session") {
        Some(ScopeKind::Session)
    } else if str_eq(name, "route") {
        Some(ScopeKind::Route)
    } else if str_eq(name, "request") {
        Some(ScopeKind::Request)
    } else if str_eq(name, "component") {
        Some(ScopeKind::Component)
    } else {
        None
    }
}

/// The noun a diagnostic uses for a declaration of this kind.
pub open spec fn kind_noun_spec(kind: DeclKind) -> Seq<char> {
    match kind {
        DeclKind::View => "view"@,
        DeclKind::Component => "component"@,
        DeclKind::Page => "page"@,
        DeclKind::Query => "query"@,
        DeclKind::Command => "command"@,
        _ => "declaration"@,
    }
}

/// What to call a declaration of this kind in a diagnostic.
pub fn kind_noun(kind: DeclKind) -> (r: &'static str)
    ensures
        r@ == kind_noun_spec(kind),
{
    match kind {
        DeclKind::View => "view",
        DeclKind::Component => "component",
        DeclKind::Page => "page",
        DeclKind::Query => "query",
        DeclKind::Command => "command",
        _ => "declaration",
    }
}

/// Whether the declaration's written row names `paint.custom`.
pub open spec fn paints(decl: Decl) -> bool {
    &&& decl.declared_effects is Some
    &&& exists|k: int|
        0 <= k < decl.declared_effects->0@.len() && #[trigger] decl.declared_effects->0@[k].path@
            == "paint.custom"@
}

/// What to call this declaration in a diagnostic: a painter has no kind of
/// its own, so its row is what names it.
pub fn context_noun(decl: &Decl) -> (r: &'static str)
    ensures
        r@ == (if paints(*decl) {
            "painter"@
        } else {
            kind_noun_spec(decl.kind)
        }),
{
    match &decl.declared_effects {
        Some(row) => {
            let n: usize = row.len();
            let mut i: usize = 0;
            while i < n
                invariant
                    n == row@.len(),
                    i <= n,
                    decl.declared_effects == Some(*row),
                    forall|k: int| 0 <= k < i ==> #[trigger] row@[k].path@ != "paint.custom"@,
                decreases n - i,
            {
                if str_eq(row[i].path.as_str(), "paint.custom") {
                    assert(decl.declared_effects->0@[i as int].path@ == "paint.custom"@);
                    return "painter";
                }
                i = i + 1;
            }
        },
        None => {},
    }
    kind_noun(decl.kind)
}

/// A declaration's privacy label, from its visibility keyword: a `session`
/// declaration is scoped to the session, a `private` one to the user, and
/// anything else is public, so the checker can only under-restrict.
pub open spec fn label_spec(visibility: Option<Seq<char>>) -> Seq<RestrictionView> {
    match visibility {
        Some(v) => if v == "session"@ {
            seq![RestrictionView::Session("SessionId"@)]
        } else if v == "private"@ {
            seq![RestrictionView::User("UserId"@)]
        } else {
            seq![]
        },
        None => seq![],
    }
}

/// A declaration's privacy label, from its visibility keyword.
pub fn label_of(decl: &Decl) -> (r: Label)
    ensures
        r@ == label_spec(
            match decl.visibility {
                Some(v) => Some(v@),
                None => None,
            },
        ),
{
    match &decl.visibility {
        Some(v) => {
            if str_eq(v.as_str(), "session") {
                Label::session("SessionId")
            } else if str_eq(v.as_str(), "private") {
                Label::user("UserId")
            } else {
                Label::public()
            }
        },
        None => Label::public(),
    }
}

// --- blocks -------------------------------------------------------------------

/// Whether statement `i` of a block is the name `keyword` and the statement
/// after it is a name.
pub open spec fn pair_at(body: Body, stmts: Seq<usize>, i: int, keyword: Seq<char>) -> bool {
    &&& 0 <= i
    &&& i + 1 < stmts.len()
    &&& body.exprs@[stmts[i] as int].0 matches Expr::Name(k) && k@ == keyword
    &&& body.exprs@[stmts[i + 1] as int].0 is Name
}

/// `<keyword> <value>` as two adjacent name statements of a block: the
/// first such pair's value, and the span from the keyword's start to the
/// value's end.
pub open spec fn name_pair_spec(body: Body, block: int, keyword: Seq<char>) -> Option<(Seq<char>, int, int)> {
    match body.exprs@[block].0 {
        Expr::Block { stmts } => if exists|i: int| #[trigger] pair_at(body, stmts@, i, keyword) {
            let i = choose|i: int|
                #[trigger] pair_at(body, stmts@, i, keyword) && forall|j: int|
                    0 <= j < i ==> !pair_at(body, stmts@, j, keyword);
            let v = match body.exprs@[stmts@[i + 1] as int].0 {
                Expr::Name(v) => v@,
                _ => seq![],
            };
            Some(
                (
                    v,
                    body.exprs@[stmts@[i] as int].1.start as int,
                    body.exprs@[stmts@[i + 1] as int].1.end as int,
                ),
            )
        } else {
            None
        },
        _ => None,
    }
}

/// The pair a result stands for.
pub open spec fn pair_view(r: Option<(String, Span)>) -> Option<(Seq<char>, int, int)> {
    match r {
        Some((v, s)) => Some((v@, s.start as int, s.end as int)),
        None => None,
    }
}

proof fn lemma_first_pair(body: Body, stmts: Seq<usize>, i: int, keyword: Seq<char>)
    requires
        pair_at(body, stmts, i, keyword),
        forall|j: int| 0 <= j < i ==> !pair_at(body, stmts, j, keyword),
    ensures
        (choose|k: int|
            #[trigger] pair_at(body, stmts, k, keyword) && forall|j: int|
                0 <= j < k ==> !pair_at(body, stmts, j, keyword)) == i,
{
    let k = choose|k: int|
        #[trigger] pair_at(body, stmts, k, keyword) && forall|j: int|
            0 <= j < k ==> !pair_at(body, stmts, j, keyword);
    assert(pair_at(body, stmts, k, keyword) && forall|j: int|
        0 <= j < k ==> !pair_at(body, stmts, j, keyword));
    if k < i {
        assert(!pair_at(body, stmts, k, keyword));
    }
    if i < k {
        assert(!pair_at(body, stmts, i, keyword));
    }
}

/// `<keyword> <value>` as two adjacent name statements in a block, with the
/// span covering the pair.
pub fn name_pair(body: &Body, block: usize, keyword: &str) -> (r: Option<(String, Span)>)
    requires
        block < body.exprs@.len(),
        body.well_formed(),
    ensures
        pair_view(r) == name_pair_spec(*body, block as int, keyword@),
{
    match &body.exprs[block].0 {
        Expr::Block { stmts } => {
            proof {
                assert(crate::hir::expr_refs_in_range(
                    body.exprs@[block as int].0,
                    body.exprs@.len() as int,
                    body.nodes@.len() as int,
                    body.nodes@,
                ));
            }
            let n: usize = stmts.len();
            let mut i: usize = 0;
            while i < n
                invariant
                    n == stmts@.len(),
                    i <= n,
                    body.exprs@[block as int].0 == (Expr::Block { stmts: *stmts }),
                    forall|k: int| 0 <= k < n ==> #[trigger] stmts@[k] < body.exprs@.len(),
                    forall|j: int| 0 <= j < i ==> !pair_at(*body, stmts@, j, keyword@),
                decreases n - i,
            {
                let is_keyword: bool = match &body.exprs[stmts[i]].0 {
                    Expr::Name(k) => str_eq(k.as_str(), keyword),
                    _ => false,
                };
                if is_keyword && i + 1 < n {
                    match &body.exprs[stmts[i + 1]].0 {
                        Expr::Name(v) => {
                            proof {
                                assert(pair_at(*body, stmts@, i as int, keyword@));
                                lemma_first_pair(*body, stmts@, i as int, keyword@);
                            }
                            let start: usize = body.exprs[stmts[i]].1.start;
                            let end: usize = body.exprs[stmts[i + 1]].1.end;
                            return Some((v.clone(), start..end));
                        },
                        _ => {},
                    }
                }
                i = i + 1;
            }
            assert(forall|i: int| !#[trigger] pair_at(*body, stmts@, i, keyword@));
            None
        },
        _ => None,
    }
}

/// `scope application` inside a block: the scope's name, and the span
/// covering the pair so a diagnostic can underline the clause.
pub fn block_scope(body: &Body, block: usize) -> (r: Option<(String, Span)>)
    requires
        block < body.exprs@.len(),
        body.well_formed(),
    ensures
        pair_view(r) == name_pair_spec(*body, block as int, "scope"@),
{
    name_pair(body, block, "scope")
}

/// A callee's dotted path as written: `task.spawn`,
/// `Analytics.record_view`. Anything but a name or a field read has none.
pub open spec fn path_spec(exprs: Seq<(Expr, Span)>, id: int) -> Seq<char>
    decreases id,
{
    if 0 <= id < exprs.len() {
        match exprs[id].0 {
            Expr::Name(n) => n@,
            Expr::Field { base, name } => if base < id {
                path_spec(exprs, base as int) + "."@ + name@
            } else {
                seq![]
            },
            _ => seq![],
        }
    } else {
        seq![]
    }
}

/// A callee's dotted path as written.
pub fn path_of(body: &Body, id: usize) -> (r: String)
    requires
        id < body.exprs@.len(),
        body.field_bases_precede(),
    ensures
        r@ == path_spec(body.exprs@, id as int),
    decreases id,
{
    match &body.exprs[id].0 {
        Expr::Name(n) => n.clone(),
        Expr::Field { base, name } => {
            proof {
                assert(match body.exprs@[id as int].0 {
                    Expr::Field { base, .. } => base < id,
                    _ => true,
                });
            }
            let mut s: String = path_of(body, *base);
            s.append(".");
            s.append(name.as_str());
            s
        },
        _ => String::new(),
    }
}

// --- signatures ----------------------------------------------------------------

/// The privacy level an effect declares as its type argument:
/// `log<Public>` gives `Public`. One `<`, its text up to a closing `>` that
/// ends the effect, and not empty.
pub open spec fn level_of(e: Seq<char>) -> Option<Seq<char>> {
    match index_of(e, '<') {
        Some(i) => {
            let rest = e.subrange(i + 1, e.len() as int);
            if rest.len() > 0 && rest.last() == '>' && rest.len() > 1 {
                Some(rest.drop_last())
            } else {
                None
            }
        },
        None => None,
    }
}

/// The first effect of a row that declares a level, and the level.
pub open spec fn first_level(effects: Seq<String>) -> Option<Seq<char>>
    decreases effects.len(),
{
    if effects.len() == 0 {
        None
    } else {
        match level_of(effects[0]@) {
            Some(l) => Some(l),
            None => first_level(effects.drop_first()),
        }
    }
}

/// The level a call's sink declares: the callee's signature, found by the
/// callee's path, and the first effect of its row with a level.
pub open spec fn sink_level_spec(sigs: Signatures, body: Body, callee: int) -> Option<(Seq<char>, int, int)> {
    match first_for(sigs.entries@, path_spec(body.exprs@, callee)) {
        Some(s) => match first_level(sigs.entries@[s].1.effects@) {
            Some(l) => Some((l, body.exprs@[callee].1.start as int, body.exprs@[callee].1.end as int)),
            None => None,
        },
        None => None,
    }
}

fn level_in(e: &str) -> (r: Option<String>)
    ensures
        match r {
            Some(l) => level_of(e@) == Some(l@),
            None => level_of(e@) is None,
        },
{
    match crate::text::find_char(e, '<') {
        Some(i) => {
            proof {
                crate::text::lemma_index_of(e@, '<');
            }
            let n: usize = e.unicode_len();
            let rest_len: usize = n - (i + 1);
            if rest_len > 1 && e.get_char(n - 1) == '>' {
                proof {
                    let rest = e@.subrange(i + 1, n as int);
                    assert(rest.last() == e@[n - 1]);
                    assert(rest.drop_last() =~= e@.subrange(i + 1, n - 1));
                }
                Some(slice(e, i + 1, n - 1))
            } else {
                proof {
                    let rest = e@.subrange(i + 1, n as int);
                    if rest.len() > 1 {
                        assert(rest.last() == e@[n - 1]);
                    }
                }
                None
            }
        },
        None => None,
    }
}

/// **The privacy level a call's sink declares**, with the span of the
/// callee. Read from the callee's signature, by path, never from its name:
/// `log.public` carries `!{ log<Public> }`, and it is the type argument that
/// makes the sink checkable.
pub fn sink_level(sigs: &Signatures, body: &Body, callee: usize) -> (r: Option<(String, Span)>)
    requires
        callee < body.exprs@.len(),
        body.field_bases_precede(),
    ensures
        pair_view(r) == sink_level_spec(*sigs, *body, callee as int),
{
    let path: String = path_of(body, callee);
    let sig = match sigs.by_path(path.as_str()) {
        Some(s) => s,
        None => {
            return None;
        },
    };
    let ghost s: int = first_for(sigs.entries@, path@).unwrap();
    proof {
        crate::signatures::lemma_first_for(sigs.entries@, path@);
    }
    let n: usize = sig.effects.len();
    assert(sig.effects@.subrange(0, n as int) =~= sig.effects@);
    let mut i: usize = 0;
    while i < n
        invariant
            n == sig.effects@.len(),
            callee < body.exprs@.len(),
            first_for(sigs.entries@, path_spec(body.exprs@, callee as int)) == Some(s),
            0 <= s < sigs.entries@.len(),
            sig.effects@ == sigs.entries@[s].1.effects@,
            i <= n,
            first_level(sig.effects@) == first_level(sig.effects@.subrange(i as int, n as int)),
        decreases n - i,
    {
        proof {
            assert(sig.effects@.subrange(i as int, n as int).drop_first() =~= sig.effects@.subrange(
                i + 1,
                n as int,
            ));
        }
        assert(sig.effects@.subrange(i as int, n as int)[0] == sig.effects@[i as int]);
        match level_in(sig.effects[i].as_str()) {
            Some(l) => {
                proof {
                    assert(first_level(sig.effects@.subrange(i as int, n as int)) == Some(l@));
                }
                let span: Span = copy_span(&body.exprs[callee].1);
                return Some((l, span));
            },
            None => {},
        }
        i = i + 1;
    }
    None
}

// --- bodies and markup -------------------------------------------------------

/// Whether a body holds an audit record: an `unsafe…` keyword form that
/// says why.
pub open spec fn audited(body: Body) -> bool {
    exists|i: int|
        0 <= i < body.exprs@.len() && match #[trigger] body.exprs@[i].0 {
            Expr::Keyword { keyword, justification, .. } => has_prefix(keyword@, "unsafe"@)
                && justification is Some,
            _ => false,
        }
}

/// **Whether a human recorded why the compiler's rule does not apply
/// here**: any `unsafe…` keyword form in the body that carries a
/// justification.
pub fn has_audit_record(body: &Body) -> (r: bool)
    ensures
        r == audited(*body),
{
    let n: usize = body.exprs.len();
    let mut i: usize = 0;
    while i < n
        invariant
            n == body.exprs@.len(),
            i <= n,
            forall|k: int|
                0 <= k < i ==> !match #[trigger] body.exprs@[k].0 {
                    Expr::Keyword { keyword, justification, .. } => has_prefix(keyword@, "unsafe"@)
                        && justification is Some,
                    _ => false,
                },
        decreases n - i,
    {
        match &body.exprs[i].0 {
            Expr::Keyword { keyword, justification, .. } => {
                if starts_with(keyword.as_str(), "unsafe") && justification.is_some() {
                    return true;
                }
            },
            _ => {},
        }
        i = i + 1;
    }
    false
}

/// The children HTML permits inside an element that constrains them.
pub open spec fn permitted_spec(tag: Seq<char>) -> Option<Seq<Seq<char>>> {
    if tag == "ul"@ || tag == "ol"@ {
        Some(seq!["li"@, "script"@, "template"@])
    } else if tag == "dl"@ {
        Some(seq!["dt"@, "dd"@, "div"@, "script"@, "template"@])
    } else if tag == "table"@ {
        Some(seq!["caption"@, "colgroup"@, "thead"@, "tbody"@, "tfoot"@, "tr"@])
    } else if tag == "thead"@ || tag == "tbody"@ || tag == "tfoot"@ {
        Some(seq!["tr"@])
    } else if tag == "tr"@ {
        Some(seq!["td"@, "th"@])
    } else if tag == "select"@ {
        Some(seq!["option"@, "optgroup"@])
    } else {
        None
    }
}

/// **Elements whose children HTML constrains**, and the children each
/// permits. A `<div>` inside a `<ul>` is invalid markup that browsers
/// silently reparse, so the DOM stops matching the source.
pub fn permitted_children(tag: &str) -> (r: Option<Vec<&'static str>>)
    ensures
        match r {
            Some(v) => permitted_spec(tag@) == Some(v@.map_values(|s: &'static str| s@)),
            None => permitted_spec(tag@) is None,
        },
{
    let r: Option<Vec<&'static str>> = if str_eq(tag, "ul") || str_eq(tag, "ol") {
        Some(vec!["li", "script", "template"])
    } else if str_eq(tag, "dl") {
        Some(vec!["dt", "dd", "div", "script", "template"])
    } else if str_eq(tag, "table") {
        Some(vec!["caption", "colgroup", "thead", "tbody", "tfoot", "tr"])
    } else if str_eq(tag, "thead") || str_eq(tag, "tbody") || str_eq(tag, "tfoot") {
        Some(vec!["tr"])
    } else if str_eq(tag, "tr") {
        Some(vec!["td", "th"])
    } else if str_eq(tag, "select") {
        Some(vec!["option", "optgroup"])
    } else {
        None
    };
    proof {
        match &r {
            Some(v) => {
                assert(permitted_spec(tag@).unwrap() =~= v@.map_values(|s: &'static str| s@));
            },
            None => {},
        }
    }
    r
}

// --- markup rules ----------------------------------------------------------------

/// Why an attribution that names nothing is refused.
pub const ATTRIBUTION_EXPLANATION: &'static str = "An attribution target names who is answerable for the consequence. One that resolves to nothing reads as reviewed and is not \u{2014} which is worse than an escape hatch with no attribution at all.";

/// Why an escape hatch needs both halves of its audit record.
pub const AUDIT_EXPLANATION: &'static str = "An escape hatch is a promise that the compiler's rule is wrong here and someone checked. The audit record has two halves: a written reason, so there is something to review and something to delete when the reason stops being true, and an attribution target, so the cost lands on a named owner rather than on the frame at large.";

/// Why a list needs a key.
pub const UNKEYED_EXPLANATION: &'static str = "Without a stable key, reordering cannot preserve element identity, focus, or state: the renderer matches by position, so the third row keeps the second row's open menu and cursor.";

/// Why invalid nesting is refused, after the list of permitted children.
pub const NESTING_EXPLANATION: &'static str = ". A browser silently reparses invalid nesting, so the DOM stops matching the source and every selector, test and assistive technology sees a different tree than the author wrote.";

/// Why a handler on an inert element is refused.
pub const INERT_EXPLANATION: &'static str = "A pointer handler on an inert element is unreachable by keyboard and invisible to assistive technology. The element looks like a control and is not one.";

/// Why a control needs a name.
pub const CONTROL_EXPLANATION: &'static str = "A control with no accessible name is announced as \"edit text\" and nothing else. `name` is submitted to the server; it is not read to the user.";

/// A diagnostic from a declaration rule, as text.
pub open spec fn rule_view(
    code: Seq<char>,
    sentence: Seq<char>,
    reason: Seq<char>,
    message: Seq<char>,
    primary: Span,
    related: Seq<(Span, Seq<char>)>,
    explanation: Seq<char>,
    repairs: Seq<Seq<char>>,
) -> DiagnosticView {
    DiagnosticView {
        code,
        invariant: sentence,
        reason,
        detector: Detector::DeclarationRule,
        severity: Severity::Error,
        message,
        primary_span: primary,
        related,
        explanation: Some(explanation),
        repairs: repairs.map_values(|r: Seq<char>| (r, None)),
    }
}

/// Whether a keyword form is an audited escape hatch with both halves of
/// its record.
pub open spec fn complete_record(e: Expr) -> bool {
    match e {
        Expr::Keyword { keyword, justification, attribution } => has_prefix(keyword@, "unsafe"@)
            && justification is Some && attribution is Some,
        _ => false,
    }
}

/// Whether a body holds an escape hatch with a complete audit record,
/// which then covers every other use inside it.
pub open spec fn covered_by_record(body: Body) -> bool {
    exists|i: int| 0 <= i < body.exprs@.len() && complete_record(#[trigger] body.exprs@[i].0)
}

/// Whether an attribution target names a declaration: this one, or one of
/// the file's.
pub open spec fn names_a_declaration(hir: Hir, decl: Decl, target: Seq<char>) -> bool {
    decl.name@ == target || exists|k: int| 0 <= k < hir.decls@.len() && #[trigger] hir.decls@[k].name@ == target
}

/// What an incomplete record lacks, as a message says it.
pub open spec fn missing_halves(justified: bool, attributed: bool) -> Seq<char> {
    if !justified && !attributed {
        "a `because` justification and an attribution target"@
    } else if !justified {
        "a `because` justification"@
    } else {
        "an attribution target"@
    }
}

pub open spec fn attribution_view(decl: Decl, keyword: Seq<char>, target: Seq<char>, span: Span) -> DiagnosticView {
    rule_view(
        registry()[29].0,
        registry()[29].1,
        "attribution_target_unresolved"@,
        "`"@ + keyword + "` is attributed to `"@ + target + "`, which names no declaration"@,
        span,
        seq![(decl.span, "`"@ + decl.name@ + "` opens the escape hatch here"@)],
        ATTRIBUTION_EXPLANATION@,
        seq!["name a declaration in this package, or an ADR"@],
    )
}

pub open spec fn incomplete_view(decl: Decl, keyword: Seq<char>, missing: Seq<char>, span: Span) -> DiagnosticView {
    rule_view(
        registry()[28].0,
        registry()[28].1,
        "unsafe_audit_incomplete"@,
        "`"@ + keyword + "` requires "@ + missing,
        span,
        seq![(decl.span, "`"@ + decl.name@ + "` opens an escape hatch here"@)],
        AUDIT_EXPLANATION@,
        seq!["write `"@ + keyword + " because \"\u{2026}\" attributes_forced_layout_to Owner`"@],
    )
}

/// What one expression reports about escape hatches.
pub open spec fn unsafe_report(hir: Hir, decl: Decl, body: Body, covered: bool, i: int) -> Seq<DiagnosticView> {
    match body.exprs@[i].0 {
        Expr::Keyword { keyword, justification, attribution } => if !has_prefix(keyword@, "unsafe"@) {
            seq![]
        } else if attribution is Some && justification is Some && !names_a_declaration(
            hir,
            decl,
            attribution->0@,
        ) {
            seq![attribution_view(decl, keyword@, attribution->0@, body.exprs@[i].1)]
        } else if covered || (justification is Some && attribution is Some) {
            seq![]
        } else {
            seq![
                incomplete_view(
                    decl,
                    keyword@,
                    missing_halves(justification is Some, attribution is Some),
                    body.exprs@[i].1,
                ),
            ]
        },
        _ => seq![],
    }
}

/// What the first `k` expressions report about escape hatches.
pub open spec fn unsafe_reports(hir: Hir, decl: Decl, body: Body, covered: bool, k: int) -> Seq<DiagnosticView>
    decreases k,
{
    if k <= 0 {
        seq![]
    } else {
        unsafe_reports(hir, decl, body, covered, k - 1) + unsafe_report(hir, decl, body, covered, k - 1)
    }
}

pub open spec fn unkeyed_view(decl: Decl, span: Span) -> DiagnosticView {
    rule_view(
        "PW5011"@,
        "a list over a mutable collection needs a stable key"@,
        "unkeyed_each"@,
        "`#each` over a mutable collection requires a key expression"@,
        span,
        seq![(decl.span, "`"@ + decl.name@ + "` renders this list"@)],
        UNKEYED_EXPLANATION@,
        seq!["add a key: `{#each items as item (item.id)}`"@],
    )
}

/// Each permitted child, as the explanation lists it: "`<li>`, `<script>`".
pub open spec fn listed_tags(tags: Seq<Seq<char>>) -> Seq<char>
    decreases tags.len(),
{
    if tags.len() == 0 {
        seq![]
    } else if tags.len() == 1 {
        "`<"@ + tags[0] + ">`"@
    } else {
        listed_tags(tags.drop_last()) + ", "@ + "`<"@ + tags.last() + ">`"@
    }
}

pub open spec fn nesting_view(child: Seq<char>, tag: Seq<char>, allowed: Seq<Seq<char>>, at: Span, parent: Span) -> DiagnosticView {
    rule_view(
        "PW5012"@,
        "an element may only contain the children HTML permits"@,
        "invalid_nesting"@,
        "`<"@ + child + ">` is not permitted as a child of `<"@ + tag + ">`"@,
        at,
        seq![(parent, "`<"@ + tag + ">` starts here"@)],
        "`<"@ + tag + ">` accepts only "@ + listed_tags(allowed) + NESTING_EXPLANATION@,
        seq!["wrap it in `<"@ + allowed[0] + ">`, or move it outside `<"@ + tag + ">`"@],
    )
}

/// What the children `cs` of a `tag` element report, when HTML permits it
/// only `allowed`.
pub open spec fn nesting_reports(body: Body, parent: Span, tag: Seq<char>, allowed: Seq<Seq<char>>, cs: Seq<usize>) -> Seq<
    DiagnosticView,
>
    decreases cs.len(),
{
    if cs.len() == 0 {
        seq![]
    } else {
        nesting_reports(body, parent, tag, allowed, cs.drop_last()) + match body.nodes@[cs.last() as int].0 {
            Node::Element { tag: child, .. } => if allowed.contains(child@) {
                seq![]
            } else {
                seq![nesting_view(child@, tag, allowed, body.nodes@[cs.last() as int].1, parent)]
            },
            _ => seq![],
        }
    }
}

/// The elements that can receive interaction.
pub open spec fn interactive_tag(t: Seq<char>) -> bool {
    t == "button"@ || t == "a"@ || t == "input"@ || t == "select"@ || t == "textarea"@ || t
        == "summary"@ || t == "label"@ || t == "option"@ || t == "form"@ || t == "details"@ || t
        == "dialog"@
}

/// The first attribute that satisfies `p`.
pub open spec fn first_where(attrs: Seq<Attr>, p: spec_fn(Attr) -> bool) -> Option<int>
    decreases attrs.len(),
{
    if attrs.len() == 0 {
        None
    } else if p(attrs[0]) {
        Some(0)
    } else {
        match first_where(attrs.drop_first(), p) {
            Some(i) => Some(i + 1),
            None => None,
        }
    }
}

proof fn lemma_first_where(attrs: Seq<Attr>, p: spec_fn(Attr) -> bool)
    ensures
        first_where(attrs, p) matches Some(i) ==> 0 <= i < attrs.len() && p(attrs[i]) && forall|k: int|
            0 <= k < i ==> !p(#[trigger] attrs[k]),
        first_where(attrs, p) is None ==> forall|k: int| 0 <= k < attrs.len() ==> !p(#[trigger] attrs[k]),
    decreases attrs.len(),
{
    if attrs.len() > 0 {
        lemma_first_where(attrs.drop_first(), p);
        if !p(attrs[0]) {
            assert forall|k: int| 1 <= k < attrs.len() implies attrs[k] == attrs.drop_first()[k - 1] by {}
        }
    }
}

proof fn lemma_first_where_is(attrs: Seq<Attr>, p: spec_fn(Attr) -> bool, i: int)
    requires
        0 <= i < attrs.len(),
        p(attrs[i]),
        forall|k: int| 0 <= k < i ==> !p(#[trigger] attrs[k]),
    ensures
        first_where(attrs, p) == Some(i),
    decreases i,
{
    if i > 0 {
        assert forall|k: int| 0 <= k < i - 1 implies !p(#[trigger] attrs.drop_first()[k]) by {
            assert(attrs.drop_first()[k] == attrs[k + 1]);
        }
        lemma_first_where_is(attrs.drop_first(), p, i - 1);
    }
}

/// The first attribute that is an event handler.
pub open spec fn first_handler(attrs: Seq<Attr>) -> Option<int> {
    first_where(attrs, |a: Attr| has_prefix(a.name@, "on:"@))
}

/// Whether some attribute is named `name`.
pub open spec fn has_attr(attrs: Seq<Attr>, name: Seq<char>) -> bool {
    exists|k: int| 0 <= k < attrs.len() && #[trigger] attrs[k].name@ == name
}

pub open spec fn handler_view(tag: Seq<char>, handler: Seq<char>, at: Span, element: Span) -> DiagnosticView {
    rule_view(
        "PW5013"@,
        "interactive behaviour belongs on an element that can receive it"@,
        "handler_on_inert_element"@,
        "`<"@ + tag + ">` with an `"@ + handler + "` handler is not keyboard accessible"@,
        at,
        seq![(element, "`<"@ + tag + ">` is not an interactive element"@)],
        INERT_EXPLANATION@,
        seq![
            "use `<button>`, which is focusable and activates on Enter and Space"@,
            "or supply `role`, `tabindex` and keyboard activation"@,
        ],
    )
}

/// What an element's handlers report.
pub open spec fn handler_reports(tag: Seq<char>, attrs: Seq<Attr>, element: Span) -> Seq<DiagnosticView> {
    match first_handler(attrs) {
        Some(h) => if !interactive_tag(tag) && !(has_attr(attrs, "role"@) && has_attr(attrs, "tabindex"@)) {
            seq![handler_view(tag, attrs[h].name@, attrs[h].span, element)]
        } else {
            seq![]
        },
        None => seq![],
    }
}

/// The first attribute named `name`.
pub open spec fn first_named(attrs: Seq<Attr>, name: Seq<char>) -> Option<int> {
    first_where(attrs, |a: Attr| a.name@ == name)
}

/// A control's `type`, when its first `type` attribute is static text:
/// the text without quotes at either end.
pub open spec fn control_type(attrs: Seq<Attr>) -> Option<Seq<char>> {
    match first_named(attrs, "type"@) {
        Some(k) => match attrs[k].value {
            AttrValue::Static(v) => Some(trim_char(v@, '"')),
            _ => None,
        },
        None => None,
    }
}

/// Whether something names a control.
pub open spec fn names_control(attrs: Seq<Attr>) -> bool {
    has_attr(attrs, "aria-label"@) || has_attr(attrs, "aria-labelledby"@) || has_attr(attrs, "id"@)
}

pub open spec fn control_view(decl: Decl, tag: Seq<char>, element: Span) -> DiagnosticView {
    rule_view(
        "PW5014"@,
        "a form control must have something that names it"@,
        "control_without_label"@,
        "`<"@ + tag + ">` has no associated label"@,
        element,
        seq![(decl.span, "`"@ + decl.name@ + "` renders this control"@)],
        CONTROL_EXPLANATION@,
        seq!["associate a `<label for=...>`, or supply `aria-label`/`aria-labelledby`"@],
    )
}

/// What a form control reports when nothing names it. Hidden, submit and
/// button inputs are not labelled controls.
pub open spec fn control_reports(decl: Decl, tag: Seq<char>, attrs: Seq<Attr>, element: Span) -> Seq<DiagnosticView> {
    if !(tag == "input"@ || tag == "select"@ || tag == "textarea"@) {
        seq![]
    } else if control_type(attrs) == Some("hidden"@) || control_type(attrs) == Some("submit"@)
        || control_type(attrs) == Some("button"@) {
        seq![]
    } else if names_control(attrs) {
        seq![]
    } else {
        seq![control_view(decl, tag, element)]
    }
}

/// What one markup node reports.
pub open spec fn node_reports(decl: Decl, body: Body, n: int) -> Seq<DiagnosticView> {
    let span = body.nodes@[n].1;
    match body.nodes@[n].0 {
        Node::Block { directive, .. } => {
            let d = trim(directive@);
            if has_prefix(d, "{#each"@) && index_of(d, '(') is None {
                seq![unkeyed_view(decl, span)]
            } else {
                seq![]
            }
        },
        Node::Element { tag, attrs, children } => (match permitted_spec(tag@) {
            Some(allowed) => nesting_reports(body, span, tag@, allowed, children@),
            None => seq![],
        }) + handler_reports(tag@, attrs@, span) + control_reports(decl, tag@, attrs@, span),
        _ => seq![],
    }
}

/// What the nodes `ns` report, in order.
pub open spec fn nodes_reports(decl: Decl, body: Body, ns: Seq<usize>) -> Seq<DiagnosticView>
    decreases ns.len(),
{
    if ns.len() == 0 {
        seq![]
    } else {
        nodes_reports(decl, body, ns.drop_last()) + node_reports(decl, body, ns.last() as int)
    }
}

/// What the templates among the first `k` expressions report.
pub open spec fn templates_reports(decl: Decl, body: Body, k: int) -> Seq<DiagnosticView>
    decreases k,
{
    if k <= 0 {
        seq![]
    } else {
        templates_reports(decl, body, k - 1) + match body.exprs@[k - 1].0 {
            Expr::Template { nodes } => nodes_reports(decl, body, nodes@),
            _ => seq![],
        }
    }
}

/// **Everything the markup rules report about a declaration**: its escape
/// hatches first, then its element tree.
pub open spec fn markup_spec(hir: Hir, decl: Decl) -> Seq<DiagnosticView> {
    match decl.body {
        Some(b) => {
            let body = hir.bodies@[b as int];
            unsafe_reports(hir, decl, body, covered_by_record(body), body.exprs@.len() as int)
                + templates_reports(decl, body, body.exprs@.len() as int)
        },
        None => seq![],
    }
}

/// A declaration rule's error with one related span.
fn rule_error(
    code: &'static str,
    sentence: &'static str,
    reason: &'static str,
    message: String,
    primary: Span,
    related: (Span, String),
    explanation: &str,
    repairs: Vec<String>,
) -> (d: Diagnostic)
    ensures
        diagnostic_view(d) == rule_view(
            code@,
            sentence@,
            reason@,
            message@,
            primary,
            seq![(related.0, related.1@)],
            explanation@,
            repairs@.map_values(|r: String| r@),
        ),
{
    let ghost rv = repairs@.map_values(|r: String| r@);
    let mut fixes: Vec<Repair> = Vec::new();
    let n: usize = repairs.len();
    let mut repairs = repairs;
    let ghost given = repairs@;
    let mut i: usize = 0;
    while i < n
        invariant
            n == given.len(),
            repairs@ == given,
            i <= n,
            fixes@.len() == i,
            forall|k: int|
                0 <= k < i ==> (#[trigger] fixes@[k]).description@ == given[k]@ && fixes@[k].replacement is None,
        decreases n - i,
    {
        fixes.push(Repair { description: repairs[i].clone(), replacement: None });
        i = i + 1;
    }
    let d = Diagnostic {
        code,
        invariant: sentence,
        reason,
        detector: Detector::DeclarationRule,
        severity: Severity::Error,
        message,
        primary_span: primary,
        related: vec![Related { span: related.0, label: related.1 }],
        explanation: Some(String::from_str(explanation)),
        repairs: fixes,
    };
    proof {
        let v = diagnostic_view(d);
        assert(v.related =~= seq![(related.0, related.1@)]);
        assert(v.repairs =~= rv.map_values(|r: Seq<char>| (r, None::<(Span, Seq<char>)>)));
    }
    d
}

/// `a + b + c`, as text.
fn joined3(a: &str, b: &str, c: &str) -> (r: String)
    ensures
        r@ == a@ + b@ + c@,
{
    let mut s: String = String::from_str(a);
    s.append(b);
    s.append(c);
    s
}

/// `a + b + c + d + e`, as text.
fn joined5(a: &str, b: &str, c: &str, d: &str, e: &str) -> (r: String)
    ensures
        r@ == a@ + b@ + c@ + d@ + e@,
{
    let mut s: String = String::from_str(a);
    s.append(b);
    s.append(c);
    s.append(d);
    s.append(e);
    s
}

fn attribution_report(decl: &Decl, keyword: &str, target: &str, span: Span) -> (d: Diagnostic)
    ensures
        diagnostic_view(d) == attribution_view(*decl, keyword@, target@, span),
{
    let code = crate::codes::unsafe_attribution_invalid();
    let message: String = joined5("`", keyword, "` is attributed to `", target, "`, which names no declaration");
    let label: String = joined3("`", decl.name.as_str(), "` opens the escape hatch here");
    let repairs: Vec<String> = vec![String::from_str("name a declaration in this package, or an ADR")];
    proof {
        assert(message@ =~= "`"@ + keyword@ + "` is attributed to `"@ + target@ + "`, which names no declaration"@);
        assert(label@ =~= "`"@ + decl.name@ + "` opens the escape hatch here"@);
        assert(repairs@.map_values(|r: String| r@) =~= seq!["name a declaration in this package, or an ADR"@]);
    }
    rule_error(
        code.id,
        code.invariant,
        "attribution_target_unresolved",
        message,
        span,
        (copy_span(&decl.span), label),
        ATTRIBUTION_EXPLANATION,
        repairs,
    )
}

fn incomplete_report(decl: &Decl, keyword: &str, justified: bool, attributed: bool, span: Span) -> (d: Diagnostic)
    requires
        !(justified && attributed),
    ensures
        diagnostic_view(d) == incomplete_view(*decl, keyword@, missing_halves(justified, attributed), span),
{
    let code = crate::codes::unsafe_audit_incomplete();
    let missing: &str = if !justified && !attributed {
        "a `because` justification and an attribution target"
    } else if !justified {
        "a `because` justification"
    } else {
        "an attribution target"
    };
    let message: String = joined3("`", keyword, "` requires ");
    let mut message = message;
    message.append(missing);
    let label: String = joined3("`", decl.name.as_str(), "` opens an escape hatch here");
    let mut fix: String = String::from_str("write `");
    fix.append(keyword);
    fix.append(" because \"\u{2026}\" attributes_forced_layout_to Owner`");
    let repairs: Vec<String> = vec![fix];
    proof {
        assert(message@ =~= "`"@ + keyword@ + "` requires "@ + missing_halves(justified, attributed));
        assert(label@ =~= "`"@ + decl.name@ + "` opens an escape hatch here"@);
        assert(repairs@.map_values(|r: String| r@) =~= seq![
            "write `"@ + keyword@ + " because \"\u{2026}\" attributes_forced_layout_to Owner`"@,
        ]);
    }
    rule_error(
        code.id,
        code.invariant,
        "unsafe_audit_incomplete",
        message,
        span,
        (copy_span(&decl.span), label),
        AUDIT_EXPLANATION,
        repairs,
    )
}

fn unkeyed_report(decl: &Decl, span: Span) -> (d: Diagnostic)
    ensures
        diagnostic_view(d) == unkeyed_view(*decl, span),
{
    let label: String = joined3("`", decl.name.as_str(), "` renders this list");
    let repairs: Vec<String> = vec![String::from_str("add a key: `{#each items as item (item.id)}`")];
    proof {
        assert(repairs@.map_values(|r: String| r@) =~= seq!["add a key: `{#each items as item (item.id)}`"@]);
    }
    rule_error(
        "PW5011",
        "a list over a mutable collection needs a stable key",
        "unkeyed_each",
        String::from_str("`#each` over a mutable collection requires a key expression"),
        span,
        (copy_span(&decl.span), label),
        UNKEYED_EXPLANATION,
        repairs,
    )
}

/// The views of a list of static strings.
pub open spec fn tag_views(tags: Seq<&'static str>) -> Seq<Seq<char>> {
    tags.map_values(|t: &'static str| t@)
}

/// Each tag, as the explanation lists it.
fn listed_tags_text(tags: &Vec<&'static str>) -> (r: String)
    ensures
        r@ == listed_tags(tag_views(tags@)),
{
    let mut s: String = String::new();
    let n: usize = tags.len();
    let mut i: usize = 0;
    while i < n
        invariant
            n == tags@.len(),
            i <= n,
            s@ == listed_tags(tag_views(tags@).subrange(0, i as int)),
        decreases n - i,
    {
        let ghost before = s@;
        proof {
            let t = tag_views(tags@).subrange(0, i + 1);
            assert(t.drop_last() =~= tag_views(tags@).subrange(0, i as int));
            assert(t.last() == tags@[i as int]@);
            if i == 0 {
                assert(t[0] == tags@[0]@);
            }
        }
        if i > 0 {
            s.append(", ");
        }
        s.append("`<");
        s.append(tags[i]);
        s.append(">`");
        proof {
            if i == 0 {
                assert(s@ =~= listed_tags(tag_views(tags@).subrange(0, 1)));
            } else {
                assert(s@ =~= listed_tags(tag_views(tags@).subrange(0, i + 1)));
            }
        }
        i = i + 1;
    }
    assert(tag_views(tags@).subrange(0, n as int) =~= tag_views(tags@));
    s
}

fn nesting_report(child: &str, tag: &str, allowed: &Vec<&'static str>, at: Span, parent: Span) -> (d: Diagnostic)
    requires
        allowed@.len() > 0,
    ensures
        diagnostic_view(d) == nesting_view(child@, tag@, tag_views(allowed@), at, parent),
{
    let message: String = joined5("`<", child, ">` is not permitted as a child of `<", tag, ">`");
    let label: String = joined3("`<", tag, ">` starts here");
    let mut explanation: String = joined3("`<", tag, ">` accepts only ");
    explanation.append(listed_tags_text(allowed).as_str());
    explanation.append(NESTING_EXPLANATION);
    let fix: String = joined5("wrap it in `<", allowed[0], ">`, or move it outside `<", tag, ">`");
    let repairs: Vec<String> = vec![fix];
    proof {
        assert(tag_views(allowed@)[0] == allowed@[0]@);
        assert(repairs@.map_values(|r: String| r@) =~= seq![
            "wrap it in `<"@ + tag_views(allowed@)[0] + ">`, or move it outside `<"@ + tag@ + ">`"@,
        ]);
    }
    rule_error(
        "PW5012",
        "an element may only contain the children HTML permits",
        "invalid_nesting",
        message,
        at,
        (parent, label),
        explanation.as_str(),
        repairs,
    )
}

fn handler_report(tag: &str, handler: &str, at: Span, element: Span) -> (d: Diagnostic)
    ensures
        diagnostic_view(d) == handler_view(tag@, handler@, at, element),
{
    let message: String = joined5("`<", tag, ">` with an `", handler, "` handler is not keyboard accessible");
    let label: String = joined3("`<", tag, ">` is not an interactive element");
    let repairs: Vec<String> = vec![
        String::from_str("use `<button>`, which is focusable and activates on Enter and Space"),
        String::from_str("or supply `role`, `tabindex` and keyboard activation"),
    ];
    proof {
        assert(repairs@.map_values(|r: String| r@) =~= seq![
            "use `<button>`, which is focusable and activates on Enter and Space"@,
            "or supply `role`, `tabindex` and keyboard activation"@,
        ]);
    }
    rule_error(
        "PW5013",
        "interactive behaviour belongs on an element that can receive it",
        "handler_on_inert_element",
        message,
        at,
        (element, label),
        INERT_EXPLANATION,
        repairs,
    )
}

fn control_report(decl: &Decl, tag: &str, element: Span) -> (d: Diagnostic)
    ensures
        diagnostic_view(d) == control_view(*decl, tag@, element),
{
    let message: String = joined3("`<", tag, ">` has no associated label");
    let label: String = joined3("`", decl.name.as_str(), "` renders this control");
    let repairs: Vec<String> = vec![
        String::from_str("associate a `<label for=...>`, or supply `aria-label`/`aria-labelledby`"),
    ];
    proof {
        assert(repairs@.map_values(|r: String| r@) =~= seq![
            "associate a `<label for=...>`, or supply `aria-label`/`aria-labelledby`"@,
        ]);
    }
    rule_error(
        "PW5014",
        "a form control must have something that names it",
        "control_without_label",
        message,
        element,
        (copy_span(&decl.span), label),
        CONTROL_EXPLANATION,
        repairs,
    )
}

fn find_handler(attrs: &Vec<Attr>) -> (r: Option<usize>)
    ensures
        match r {
            Some(i) => first_handler(attrs@) == Some(i as int),
            None => first_handler(attrs@) is None,
        },
{
    let ghost p = |a: Attr| has_prefix(a.name@, "on:"@);
    proof {
        lemma_first_where(attrs@, p);
    }
    let n: usize = attrs.len();
    let mut i: usize = 0;
    while i < n
        invariant
            n == attrs@.len(),
            i <= n,
            p == (|a: Attr| has_prefix(a.name@, "on:"@)),
            forall|k: int| 0 <= k < i ==> !p(#[trigger] attrs@[k]),
        decreases n - i,
    {
        if starts_with(attrs[i].name.as_str(), "on:") {
            proof {
                lemma_first_where_is(attrs@, p, i as int);
            }
            return Some(i);
        }
        i = i + 1;
    }
    None
}

fn find_named(attrs: &Vec<Attr>, name: &str) -> (r: Option<usize>)
    ensures
        match r {
            Some(i) => first_named(attrs@, name@) == Some(i as int),
            None => first_named(attrs@, name@) is None,
        },
{
    let ghost p = |a: Attr| a.name@ == name@;
    proof {
        lemma_first_where(attrs@, p);
    }
    let n: usize = attrs.len();
    let mut i: usize = 0;
    while i < n
        invariant
            n == attrs@.len(),
            i <= n,
            p == (|a: Attr| a.name@ == name@),
            forall|k: int| 0 <= k < i ==> !p(#[trigger] attrs@[k]),
        decreases n - i,
    {
        if str_eq(attrs[i].name.as_str(), name) {
            proof {
                lemma_first_where_is(attrs@, p, i as int);
            }
            return Some(i);
        }
        i = i + 1;
    }
    None
}

fn attr_named(attrs: &Vec<Attr>, name: &str) -> (r: bool)
    ensures
        r == has_attr(attrs@, name@),
{
    let found = find_named(attrs, name);
    proof {
        lemma_first_where(attrs@, |a: Attr| a.name@ == name@);
        if found is None {
            assert forall|k: int| 0 <= k < attrs@.len() implies #[trigger] attrs@[k].name@ != name@ by {
                assert(!(|a: Attr| a.name@ == name@)(attrs@[k]));
            }
        } else {
            let i = found->0 as int;
            assert((|a: Attr| a.name@ == name@)(attrs@[i]));
            assert(attrs@[i].name@ == name@);
        }
    }
    found.is_some()
}

fn type_of_control(attrs: &Vec<Attr>) -> (r: Option<String>)
    ensures
        match r {
            Some(t) => control_type(attrs@) == Some(t@),
            None => control_type(attrs@) is None,
        },
{
    proof {
        lemma_first_where(attrs@, |a: Attr| a.name@ == "type"@);
    }
    match find_named(attrs, "type") {
        Some(k) => match &attrs[k].value {
            AttrValue::Static(v) => Some(crate::text::trimmed_char(v.as_str(), '"')),
            _ => None,
        },
        None => None,
    }
}

fn is_interactive(tag: &str) -> (r: bool)
    ensures
        r == interactive_tag(tag@),
{
    str_eq(tag, "button") || str_eq(tag, "a") || str_eq(tag, "input") || str_eq(tag, "select") || str_eq(
        tag,
        "textarea",
    ) || str_eq(tag, "summary") || str_eq(tag, "label") || str_eq(tag, "option") || str_eq(tag, "form")
        || str_eq(tag, "details") || str_eq(tag, "dialog")
}

proof fn lemma_views_push(s: Seq<Diagnostic>, d: Diagnostic)
    ensures
        diagnostic_views(s.push(d)) == diagnostic_views(s).push(diagnostic_view(d)),
{
    assert(diagnostic_views(s.push(d)) =~= diagnostic_views(s).push(diagnostic_view(d)));
}

/// Push `d`, keeping the views of what was there.
fn push_report(out: &mut Vec<Diagnostic>, d: Diagnostic)
    ensures
        diagnostic_views(final(out)@) == diagnostic_views(old(out)@).push(diagnostic_view(d)),
{
    proof {
        lemma_views_push(out@, d);
    }
    out.push(d);
}

fn allows(allowed: &Vec<&'static str>, tag: &str) -> (r: bool)
    ensures
        r == tag_views(allowed@).contains(tag@),
{
    let n: usize = allowed.len();
    let mut i: usize = 0;
    while i < n
        invariant
            n == allowed@.len(),
            i <= n,
            forall|k: int| 0 <= k < i ==> tag_views(allowed@)[k] != tag@,
        decreases n - i,
    {
        if str_eq(allowed[i], tag) {
            assert(tag_views(allowed@)[i as int] == tag@);
            return true;
        }
        i = i + 1;
    }
    false
}

/// What the children of one element report about their nesting.
fn nesting_rules(body: &Body, parent: &Span, tag: &str, allowed: &Vec<&'static str>, children: &Vec<usize>, out: &mut Vec<Diagnostic>)
    requires
        allowed@.len() > 0,
        forall|k: int| 0 <= k < children@.len() ==> #[trigger] children@[k] < body.nodes@.len(),
    ensures
        diagnostic_views(final(out)@) == diagnostic_views(old(out)@) + nesting_reports(
            *body,
            *parent,
            tag@,
            tag_views(allowed@),
            children@,
        ),
{
    let ghost start = diagnostic_views(out@);
    let ghost av = tag_views(allowed@);
    let n: usize = children.len();
    let mut i: usize = 0;
    assert(start =~= start + nesting_reports(*body, *parent, tag@, av, children@.subrange(0, 0)));
    while i < n
        invariant
            n == children@.len(),
            i <= n,
            allowed@.len() > 0,
            av == tag_views(allowed@),
            forall|k: int| 0 <= k < children@.len() ==> #[trigger] children@[k] < body.nodes@.len(),
            diagnostic_views(out@) == start + nesting_reports(*body, *parent, tag@, av, children@.subrange(0, i as int)),
        decreases n - i,
    {
        let ghost cs = children@.subrange(0, i + 1);
        proof {
            assert(cs.drop_last() =~= children@.subrange(0, i as int));
            assert(cs.last() == children@[i as int]);
        }
        let c: usize = children[i];
        match &body.nodes[c].0 {
            Node::Element { tag: child, .. } => {
                if !allows(allowed, child.as_str()) {
                    let d = nesting_report(child.as_str(), tag, allowed, copy_span(&body.nodes[c].1), copy_span(parent));
                    push_report(out, d);
                }
            },
            _ => {},
        }
        proof {
            assert(diagnostic_views(out@) =~= start + nesting_reports(*body, *parent, tag@, av, cs));
        }
        i = i + 1;
    }
    assert(children@.subrange(0, n as int) =~= children@);
}

/// What one markup node reports.
fn node_rules(decl: &Decl, body: &Body, n: usize, out: &mut Vec<Diagnostic>)
    requires
        n < body.nodes@.len(),
        body.well_formed(),
    ensures
        diagnostic_views(final(out)@) == diagnostic_views(old(out)@) + node_reports(*decl, *body, n as int),
{
    let ghost start = diagnostic_views(out@);
    let span: Span = copy_span(&body.nodes[n].1);
    match &body.nodes[n].0 {
        Node::Block { directive, .. } => {
            let d: String = crate::text::trimmed(directive.as_str());
            if starts_with(d.as_str(), "{#each") && crate::text::find_char(d.as_str(), '(').is_none() {
                push_report(out, unkeyed_report(decl, span));
            }
            proof {
                assert(diagnostic_views(out@) =~= start + node_reports(*decl, *body, n as int));
            }
        },
        Node::Element { tag, attrs, children } => {
            proof {
                assert(crate::hir::children_in_range(body.nodes@[n as int].0, body.nodes@.len() as int));
            }
            let ghost nest = match permitted_spec(tag@) {
                Some(allowed) => nesting_reports(*body, span, tag@, allowed, children@),
                None => seq![],
            };
            match permitted_children(tag.as_str()) {
                Some(allowed) => {
                    nesting_rules(body, &span, tag.as_str(), &allowed, children, out);
                },
                None => {},
            }
            assert(diagnostic_views(out@) =~= start + nest);
            let ghost after_nest = diagnostic_views(out@);
            match find_handler(attrs) {
                Some(h) => {
                    proof {
                        lemma_first_where(attrs@, |a: Attr| has_prefix(a.name@, "on:"@));
                    }
                    if !is_interactive(tag.as_str()) && !(attr_named(attrs, "role") && attr_named(attrs, "tabindex")) {
                        let d = handler_report(tag.as_str(), attrs[h].name.as_str(), copy_span(&attrs[h].span), copy_span(&span));
                        push_report(out, d);
                    }
                },
                None => {},
            }
            assert(diagnostic_views(out@) =~= after_nest + handler_reports(tag@, attrs@, span));
            let ghost after_handler = diagnostic_views(out@);
            if str_eq(tag.as_str(), "input") || str_eq(tag.as_str(), "select") || str_eq(tag.as_str(), "textarea") {
                let typ: Option<String> = type_of_control(attrs);
                let exempt: bool = match &typ {
                    Some(t) => str_eq(t.as_str(), "hidden") || str_eq(t.as_str(), "submit") || str_eq(t.as_str(), "button"),
                    None => false,
                };
                if !exempt {
                    let named: bool = attr_named(attrs, "aria-label") || attr_named(attrs, "aria-labelledby") || attr_named(attrs, "id");
                    if !named {
                        push_report(out, control_report(decl, tag.as_str(), span));
                    }
                }
            }
            proof {
                assert(diagnostic_views(out@) =~= after_handler + control_reports(*decl, tag@, attrs@, span));
                assert(diagnostic_views(out@) =~= start + node_reports(*decl, *body, n as int));
            }
        },
        _ => {
            assert(diagnostic_views(out@) =~= start + node_reports(*decl, *body, n as int));
        },
    }
}

fn has_complete_record(body: &Body) -> (r: bool)
    ensures
        r == covered_by_record(*body),
{
    let n: usize = body.exprs.len();
    let mut i: usize = 0;
    while i < n
        invariant
            n == body.exprs@.len(),
            i <= n,
            forall|k: int| 0 <= k < i ==> !complete_record(#[trigger] body.exprs@[k].0),
        decreases n - i,
    {
        match &body.exprs[i].0 {
            Expr::Keyword { keyword, justification, attribution } => {
                if starts_with(keyword.as_str(), "unsafe") && justification.is_some() && attribution.is_some() {
                    assert(complete_record(body.exprs@[i as int].0));
                    return true;
                }
            },
            _ => {},
        }
        i = i + 1;
    }
    false
}

fn names_declaration(hir: &Hir, decl: &Decl, target: &str) -> (r: bool)
    ensures
        r == names_a_declaration(*hir, *decl, target@),
{
    if str_eq(decl.name.as_str(), target) {
        return true;
    }
    let n: usize = hir.decls.len();
    let mut i: usize = 0;
    while i < n
        invariant
            n == hir.decls@.len(),
            i <= n,
            forall|k: int| 0 <= k < i ==> #[trigger] hir.decls@[k].name@ != target@,
        decreases n - i,
    {
        if str_eq(hir.decls[i].name.as_str(), target) {
            return true;
        }
        i = i + 1;
    }
    false
}

/// **Structural rules over a declaration's markup**: an escape hatch must
/// carry its audit record, a list its key, an element only the children
/// HTML permits, a handler an element that can receive it, and a form
/// control something that names it. None needs effect inference: they are
/// properties of the tree the author wrote.
pub fn markup_rules(hir: &Hir, decl: &Decl, out: &mut Vec<Diagnostic>)
    requires
        decl.body matches Some(b) ==> b < hir.bodies@.len() && hir.bodies@[b as int].well_formed(),
    ensures
        diagnostic_views(final(out)@) == diagnostic_views(old(out)@) + markup_spec(*hir, *decl),
{
    let ghost start = diagnostic_views(out@);
    let b: usize = match decl.body {
        Some(b) => b,
        None => {
            assert(diagnostic_views(out@) =~= start + markup_spec(*hir, *decl));
            return;
        },
    };
    let body: &Body = &hir.bodies[b];
    let covered: bool = has_complete_record(body);
    let n: usize = body.exprs.len();
    let mut i: usize = 0;
    while i < n
        invariant
            n == body.exprs@.len(),
            i <= n,
            *body == hir.bodies@[b as int],
            covered == covered_by_record(*body),
            diagnostic_views(out@) == start + unsafe_reports(*hir, *decl, *body, covered, i as int),
        decreases n - i,
    {
        let ghost before = diagnostic_views(out@);
        let span: Span = copy_span(&body.exprs[i].1);
        match &body.exprs[i].0 {
            Expr::Keyword { keyword, justification, attribution } => {
                if starts_with(keyword.as_str(), "unsafe") {
                    let refused: bool = match attribution {
                        Some(target) => justification.is_some() && !names_declaration(hir, decl, target.as_str()),
                        None => false,
                    };
                    if refused {
                        let target: &String = attribution.as_ref().unwrap();
                        push_report(out, attribution_report(decl, keyword.as_str(), target.as_str(), span));
                    } else if !(covered || (justification.is_some() && attribution.is_some())) {
                        push_report(
                            out,
                            incomplete_report(decl, keyword.as_str(), justification.is_some(), attribution.is_some(), span),
                        );
                    }
                }
            },
            _ => {},
        }
        proof {
            assert(diagnostic_views(out@) =~= before + unsafe_report(*hir, *decl, *body, covered, i as int));
        }
        i = i + 1;
    }
    let ghost after_unsafe = diagnostic_views(out@);
    let mut k: usize = 0;
    assert(after_unsafe =~= after_unsafe + templates_reports(*decl, *body, 0));
    while k < n
        invariant
            n == body.exprs@.len(),
            k <= n,
            body.well_formed(),
            diagnostic_views(out@) == after_unsafe + templates_reports(*decl, *body, k as int),
        decreases n - k,
    {
        let ghost before = diagnostic_views(out@);
        match &body.exprs[k].0 {
            Expr::Template { nodes } => {
                proof {
                    assert(crate::hir::expr_refs_in_range(
                        body.exprs@[k as int].0,
                        body.exprs@.len() as int,
                        body.nodes@.len() as int,
                        body.nodes@,
                    ));
                }
                let m: usize = nodes.len();
                let mut j: usize = 0;
                assert(before =~= before + nodes_reports(*decl, *body, nodes@.subrange(0, 0)));
                while j < m
                    invariant
                        m == nodes@.len(),
                        j <= m,
                        body.well_formed(),
                        forall|q: int| 0 <= q < m ==> #[trigger] nodes@[q] < body.nodes@.len(),
                        diagnostic_views(out@) == before + nodes_reports(*decl, *body, nodes@.subrange(0, j as int)),
                    decreases m - j,
                {
                    let ghost ns = nodes@.subrange(0, j + 1);
                    proof {
                        assert(ns.drop_last() =~= nodes@.subrange(0, j as int));
                        assert(ns.last() == nodes@[j as int]);
                    }
                    node_rules(decl, body, nodes[j], out);
                    proof {
                        assert(diagnostic_views(out@) =~= before + nodes_reports(*decl, *body, ns));
                    }
                    j = j + 1;
                }
                proof {
                    assert(nodes@.subrange(0, m as int) =~= nodes@);
                    assert(diagnostic_views(out@) =~= before + match body.exprs@[k as int].0 {
                        Expr::Template { nodes } => nodes_reports(*decl, *body, nodes@),
                        _ => seq![],
                    });
                }
            },
            _ => {},
        }
        proof {
            assert(diagnostic_views(out@) =~= after_unsafe + templates_reports(*decl, *body, k + 1));
        }
        k = k + 1;
    }
    proof {
        assert(diagnostic_views(out@) =~= start + markup_spec(*hir, *decl));
    }
}

proof fn lemma_nesting_codes(body: Body, parent: Span, tag: Seq<char>, allowed: Seq<Seq<char>>, cs: Seq<usize>)
    ensures
        forall|k: int|
            0 <= k < nesting_reports(body, parent, tag, allowed, cs).len() ==> #[trigger] nesting_reports(
                body,
                parent,
                tag,
                allowed,
                cs,
            )[k].code == "PW5012"@,
    decreases cs.len(),
{
    if cs.len() > 0 {
        lemma_nesting_codes(body, parent, tag, allowed, cs.drop_last());
    }
}

/// **A handler on an element that can receive interaction is no defect**:
/// an element `<button>`, `<a>`, `<input>`, `<select>`, `<textarea>`,
/// `<summary>`, `<label>`, `<option>`, `<form>`, `<details>` or `<dialog>`
/// draws no `PW5013` report, whatever handlers it carries; `<form on:submit>`
/// is how a form is submitted.
pub proof fn a_handler_on_an_interactive_element_is_no_defect(decl: Decl, body: Body, n: int)
    requires
        0 <= n < body.nodes@.len(),
        body.nodes@[n].0 matches Node::Element { tag, .. } && {
            ||| tag@ == "button"@ || tag@ == "a"@ || tag@ == "input"@ || tag@ == "select"@
            ||| tag@ == "textarea"@ || tag@ == "summary"@ || tag@ == "label"@ || tag@ == "option"@
            ||| tag@ == "form"@ || tag@ == "details"@ || tag@ == "dialog"@
        },
    ensures
        forall|k: int|
            0 <= k < node_reports(decl, body, n).len() ==> #[trigger] node_reports(decl, body, n)[k].code != "PW5013"@,
{
    reveal_strlit("PW5012");
    reveal_strlit("PW5013");
    reveal_strlit("PW5014");
    assert("PW5012"@[5] != "PW5013"@[5] && "PW5014"@[5] != "PW5013"@[5]);
    match body.nodes@[n].0 {
        Node::Element { tag, attrs, children } => {
            assert(interactive_tag(tag@));
            assert(handler_reports(tag@, attrs@, body.nodes@[n].1) == Seq::<DiagnosticView>::empty());
            let nest = match permitted_spec(tag@) {
                Some(allowed) => nesting_reports(body, body.nodes@[n].1, tag@, allowed, children@),
                None => seq![],
            };
            match permitted_spec(tag@) {
                Some(allowed) => lemma_nesting_codes(body, body.nodes@[n].1, tag@, allowed, children@),
                None => {},
            }
            let ctl = control_reports(decl, tag@, attrs@, body.nodes@[n].1);
            assert(node_reports(decl, body, n) =~= nest + ctl);
            assert forall|k: int| 0 <= k < ctl.len() implies #[trigger] ctl[k].code == "PW5014"@ by {}
            assert forall|k: int| 0 <= k < (nest + ctl).len() implies #[trigger] (nest + ctl)[k].code != "PW5013"@ by {
                if k < nest.len() {
                    assert((nest + ctl)[k] == nest[k]);
                } else {
                    assert((nest + ctl)[k] == ctl[k - nest.len()]);
                }
            }
        },
        _ => {},
    }
}

/// **A handler on any other element is reported**, unless the element
/// supplies both a `role` and a `tabindex`: the report is `PW5013`, at the
/// first handler.
pub proof fn a_handler_on_an_inert_element_is_reported(tag: Seq<char>, attrs: Seq<Attr>, element: Span)
    requires
        !{
            ||| tag == "button"@ || tag == "a"@ || tag == "input"@ || tag == "select"@
            ||| tag == "textarea"@ || tag == "summary"@ || tag == "label"@ || tag == "option"@
            ||| tag == "form"@ || tag == "details"@ || tag == "dialog"@
        },
        first_handler(attrs) is Some,
        !(has_attr(attrs, "role"@) && has_attr(attrs, "tabindex"@)),
    ensures
        handler_reports(tag, attrs, element).len() == 1,
        handler_reports(tag, attrs, element)[0].code == "PW5013"@,
        handler_reports(tag, attrs, element)[0].primary_span == attrs[first_handler(attrs)->0].span,
{
}

} // verus!
