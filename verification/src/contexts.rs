//! Execution contexts: where work in a body actually runs.
//!
//! A body mentions work that executes somewhere else, and two questions have
//! separate answers:
//!
//! ```text
//!               effects flow here?     a value flows here?
//! query          no  (query placement)  yes
//! command        no  (command placement) yes
//! subscription   no  (owned scope)      yes
//! <stream>       no  (stream task)      yes, eventually
//! on:press       no  (interaction)      no
//! frame phases   no  (later frame)      no
//! depends_on     no  (the named decl)   no
//! ```
use vstd::prelude::*;

use crate::diagnostics::{copy_span, Span};
use crate::hir::{AttrValue, Body, Expr, Node};
use crate::text::{has_prefix, starts_with, str_eq};

verus! {

/// Where a piece of work runs.
#[derive(Debug, Clone, Copy, PartialEq, Eq, Structural)]
pub enum Context {
    /// The enclosing body itself.
    Render,
    /// A query, at the query's own placement.
    Query,
    /// A command, at the command's own placement.
    Command,
    /// A subscription's owned scope.
    Subscription,
    /// A streamed region's task, after the shell is sent.
    StreamTask,
    /// An event handler, when the user acts.
    Interaction,
    /// A later frame phase.
    FramePhase,
    /// A named declaration, referred to rather than called.
    NamedDeclaration,
}

pub open spec fn another_declaration(c: Context) -> bool {
    c == Context::Query || c == Context::Command || c == Context::Subscription || c
        == Context::NamedDeclaration
}

pub open spec fn later(c: Context) -> bool {
    c == Context::StreamTask || c == Context::Interaction || c == Context::FramePhase
}

pub open spec fn yields(c: Context) -> bool {
    c == Context::Query || c == Context::Command || c == Context::Subscription || c
        == Context::StreamTask
}

pub open spec fn describe_context(c: Context) -> Seq<char> {
    match c {
        Context::Render => "this body"@,
        Context::Query => "the query's own placement"@,
        Context::Command => "the command's own placement"@,
        Context::Subscription => "the subscription's scope"@,
        Context::StreamTask => "a streamed region, after the shell is sent"@,
        Context::Interaction => "an event handler, when the user acts"@,
        Context::FramePhase => "a later frame phase"@,
        Context::NamedDeclaration => "the declaration it names"@,
    }
}

impl Context {
    /// Does this work belong to a **different declaration**? If so its
    /// effects are not this body's at all. Distinct from running later: a
    /// frame phase is this body's work at a different time.
    pub fn belongs_to_another_declaration(self) -> (r: bool)
        ensures
            r == another_declaration(self),
    {
        match self {
            Context::Query | Context::Command | Context::Subscription | Context::NamedDeclaration => true,
            _ => false,
        }
    }

    /// Does this work happen after the render that mentions it? Its effects
    /// are still this body's, but a render-time restriction does not apply.
    pub fn runs_later(self) -> (r: bool)
        ensures
            r == later(self),
    {
        match self {
            Context::StreamTask | Context::Interaction | Context::FramePhase => true,
            _ => false,
        }
    }

    /// Does the enclosing body receive a value from it?
    pub fn yields_value(self) -> (r: bool)
        ensures
            r == yields(self),
    {
        match self {
            Context::Query | Context::Command | Context::Subscription | Context::StreamTask => true,
            _ => false,
        }
    }

    pub fn describe(self) -> (r: &'static str)
        ensures
            r@ == describe_context(self),
    {
        match self {
            Context::Render => "this body",
            Context::Query => "the query's own placement",
            Context::Command => "the command's own placement",
            Context::Subscription => "the subscription's scope",
            Context::StreamTask => "a streamed region, after the shell is sent",
            Context::Interaction => "an event handler, when the user acts",
            Context::FramePhase => "a later frame phase",
            Context::NamedDeclaration => "the declaration it names",
        }
    }
}

/// A span of a body whose work runs somewhere other than here.
#[derive(Debug, Clone)]
pub struct Elsewhere {
    pub span: Span,
    pub context: Context,
}

/// The context a keyword form runs its work in, when it runs it elsewhere.
pub open spec fn keyword_context(k: Seq<char>) -> Option<Context> {
    if k == "query"@ {
        Some(Context::Query)
    } else if k == "command"@ {
        Some(Context::Command)
    } else if k == "subscription"@ || k == "subscribe"@ {
        Some(Context::Subscription)
    } else if k == "post_paint"@ || k == "frame"@ || k == "animate"@ {
        Some(Context::FramePhase)
    } else if k == "task"@ || k == "resource"@ {
        Some(Context::Interaction)
    } else {
        None
    }
}

/// A clause that names declarations rather than calling them.
pub open spec fn is_naming_clause(n: Seq<char>) -> bool {
    n == "depends_on"@ || n == "invalidates_on"@ || n == "derives_from"@
}

/// The calls a block's statements name rather than make: each call that
/// follows a naming clause, until a statement that is neither.
pub open spec fn named_in(body: Body, stmts: Seq<usize>, naming: bool) -> Seq<(Span, Context)>
    decreases stmts.len(),
{
    if stmts.len() == 0 {
        seq![]
    } else {
        let s = stmts[0] as int;
        let rest = stmts.drop_first();
        match body.exprs@[s].0 {
            Expr::Name(n) => named_in(body, rest, is_naming_clause(n@)),
            Expr::Call { .. } => if naming {
                seq![(body.exprs@[s].1, Context::NamedDeclaration)] + named_in(body, rest, true)
            } else {
                named_in(body, rest, false)
            },
            _ => named_in(body, rest, false),
        }
    }
}

/// The context an attribute of an element runs its expression in.
pub open spec fn attribute_context(tag: Seq<char>, name: Seq<char>) -> Option<Context> {
    if has_prefix(name, "on:"@) {
        Some(Context::Interaction)
    } else if tag == "stream"@ && name == "query"@ {
        Some(Context::StreamTask)
    } else {
        None
    }
}

/// The regions an element's attributes run elsewhere.
pub open spec fn attribute_regions(body: Body, tag: Seq<char>, attrs: Seq<crate::hir::Attr>) -> Seq<
    (Span, Context),
>
    decreases attrs.len(),
{
    if attrs.len() == 0 {
        seq![]
    } else {
        let rest = attribute_regions(body, tag, attrs.drop_last());
        let a = attrs.last();
        match attribute_context(tag, a.name@) {
            Some(c) => match a.value {
                AttrValue::Expr(e) => rest.push((body.exprs@[e as int].1, c)),
                _ => rest,
            },
            None => rest,
        }
    }
}

/// The regions a template's nodes run elsewhere.
pub open spec fn markup_regions(body: Body, nodes: Seq<usize>) -> Seq<(Span, Context)>
    decreases nodes.len(),
{
    if nodes.len() == 0 {
        seq![]
    } else {
        markup_regions(body, nodes.drop_last()) + match body.nodes@[nodes.last() as int].0 {
            Node::Element { tag, attrs, .. } => attribute_regions(body, tag@, attrs@),
            _ => seq![],
        }
    }
}

/// The regions one expression contributes.
pub open spec fn regions_of(body: Body, i: int) -> Seq<(Span, Context)> {
    match body.exprs@[i].0 {
        Expr::Keyword { keyword, .. } => match keyword_context(keyword@) {
            Some(c) => seq![(body.exprs@[i].1, c)],
            None => seq![],
        },
        Expr::Block { stmts } => named_in(body, stmts@, false),
        Expr::Template { nodes } => markup_regions(body, nodes@),
        _ => seq![],
    }
}

/// The regions of the first `n` expressions, in order.
pub open spec fn elsewhere_spec(body: Body, n: int) -> Seq<(Span, Context)>
    decreases n,
{
    if n <= 0 {
        seq![]
    } else {
        elsewhere_spec(body, n - 1) + regions_of(body, n - 1)
    }
}

/// The regions, as spans and contexts.
pub open spec fn region_views(v: Seq<Elsewhere>) -> Seq<(Span, Context)> {
    v.map_values(|e: Elsewhere| (e.span, e.context))
}

fn push_region(out: &mut Vec<Elsewhere>, span: &Span, context: Context)
    ensures
        region_views(final(out)@) == region_views(old(out)@).push((*span, context)),
{
    let ghost prev = out@;
    out.push(Elsewhere { span: copy_span(span), context });
    assert(region_views(out@) =~= region_views(prev).push((*span, context)));
}

fn keyword_context_of(k: &str) -> (r: Option<Context>)
    ensures
        r == keyword_context(k@),
{
    if str_eq(k, "query") {
        Some(Context::Query)
    } else if str_eq(k, "command") {
        Some(Context::Command)
    } else if str_eq(k, "subscription") || str_eq(k, "subscribe") {
        Some(Context::Subscription)
    } else if str_eq(k, "post_paint") || str_eq(k, "frame") || str_eq(k, "animate") {
        Some(Context::FramePhase)
    } else if str_eq(k, "task") || str_eq(k, "resource") {
        Some(Context::Interaction)
    } else {
        None
    }
}

/// Every region of this body that executes in another context: keyword
/// forms, the calls a naming clause names, event handlers and a stream's
/// query, in the order the body holds them.
pub fn elsewhere(body: &Body) -> (r: Vec<Elsewhere>)
    requires
        body.well_formed(),
    ensures
        region_views(r@) == elsewhere_spec(*body, body.exprs@.len() as int),
{
    let mut out: Vec<Elsewhere> = Vec::new();
    let n: usize = body.exprs.len();
    let mut i: usize = 0;
    assert(region_views(out@) =~= elsewhere_spec(*body, 0));
    while i < n
        invariant
            n == body.exprs@.len(),
            i <= n,
            body.well_formed(),
            region_views(out@) == elsewhere_spec(*body, i as int),
        decreases n - i,
    {
        let ghost start = region_views(out@);
        assert(crate::hir::expr_refs_in_range(
            body.exprs@[i as int].0,
            n as int,
            body.nodes@.len() as int,
            body.nodes@,
        ));
        match &body.exprs[i].0 {
            Expr::Keyword { keyword, .. } => {
                match keyword_context_of(keyword.as_str()) {
                    Some(context) => push_region(&mut out, &body.exprs[i].1, context),
                    None => {},
                }
            },
            Expr::Block { stmts } => {
                let mut naming: bool = false;
                let m: usize = stmts.len();
                let mut j: usize = 0;
                assert(stmts@.subrange(0, m as int) =~= stmts@);
                while j < m
                    invariant
                        n == body.exprs@.len(),
                        m == stmts@.len(),
                        j <= m,
                        forall|k: int| 0 <= k < m ==> #[trigger] stmts@[k] < n,
                        start + named_in(*body, stmts@, false) == region_views(out@) + named_in(
                            *body,
                            stmts@.subrange(j as int, m as int),
                            naming,
                        ),
                    decreases m - j,
                {
                    let ghost rest = stmts@.subrange(j as int, m as int);
                    assert(rest.drop_first() =~= stmts@.subrange(j + 1, m as int));
                    assert(rest[0] == stmts@[j as int]);
                    let s: usize = stmts[j];
                    match &body.exprs[s].0 {
                        Expr::Name(name) => {
                            naming = str_eq(name.as_str(), "depends_on") || str_eq(
                                name.as_str(),
                                "invalidates_on",
                            ) || str_eq(name.as_str(), "derives_from");
                        },
                        Expr::Call { .. } => {
                            if naming {
                                let ghost before = region_views(out@);
                                push_region(&mut out, &body.exprs[s].1, Context::NamedDeclaration);
                                assert(region_views(out@) + named_in(
                                    *body,
                                    stmts@.subrange(j + 1, m as int),
                                    true,
                                ) =~= before + named_in(*body, rest, true));
                            }
                        },
                        _ => {
                            naming = false;
                        },
                    }
                    j = j + 1;
                }
                assert(stmts@.subrange(0, m as int) =~= stmts@);
                assert(stmts@.subrange(m as int, m as int).len() == 0);
                assert(region_views(out@) =~= start + named_in(*body, stmts@, false));
            },
            Expr::Template { nodes } => {
                let m: usize = nodes.len();
                let mut j: usize = 0;
                while j < m
                    invariant
                        n == body.exprs@.len(),
                        m == nodes@.len(),
                        j <= m,
                        forall|k: int|
                            0 <= k < m ==> #[trigger] nodes@[k] < body.nodes@.len()
                                && crate::hir::node_refs_in_range(body.nodes@[nodes@[k] as int].0, n as int),
                        region_views(out@) == start + markup_regions(*body, nodes@.subrange(0, j as int)),
                    decreases m - j,
                {
                    assert(nodes@.subrange(0, j + 1).drop_last() =~= nodes@.subrange(0, j as int));
                    let ghost mid = region_views(out@);
                    let node_id: usize = nodes[j];
                    match &body.nodes[node_id].0 {
                        Node::Element { tag, attrs, .. } => {
                            let q: usize = attrs.len();
                            let mut a: usize = 0;
                            while a < q
                                invariant
                                    n == body.exprs@.len(),
                                    q == attrs@.len(),
                                    a <= q,
                                    forall|k: int|
                                        0 <= k < q ==> match #[trigger] attrs@[k].value {
                                            AttrValue::Expr(e) => e < n,
                                            _ => true,
                                        },
                                    region_views(out@) == mid + attribute_regions(
                                        *body,
                                        tag@,
                                        attrs@.subrange(0, a as int),
                                    ),
                                decreases q - a,
                            {
                                assert(attrs@.subrange(0, a + 1).drop_last() =~= attrs@.subrange(
                                    0,
                                    a as int,
                                ));
                                let attr = &attrs[a];
                                let context: Option<Context> = if starts_with(attr.name.as_str(), "on:") {
                                    Some(Context::Interaction)
                                } else if str_eq(tag.as_str(), "stream") && str_eq(
                                    attr.name.as_str(),
                                    "query",
                                ) {
                                    Some(Context::StreamTask)
                                } else {
                                    None
                                };
                                match context {
                                    Some(c) => match attr.value {
                                        AttrValue::Expr(e) => {
                                            push_region(&mut out, &body.exprs[e].1, c);
                                        },
                                        _ => {},
                                    },
                                    None => {},
                                }
                                a = a + 1;
                            }
                            assert(attrs@.subrange(0, q as int) =~= attrs@);
                        },
                        _ => {},
                    }
                    j = j + 1;
                }
                assert(nodes@.subrange(0, m as int) =~= nodes@);
            },
            _ => {},
        }
        proof {
            assert(region_views(out@) =~= elsewhere_spec(*body, i + 1));
        }
        i = i + 1;
    }
    out
}

/// `outer` contains `inner`.
pub open spec fn contains_span(outer: Span, inner: Span) -> bool {
    outer.start <= inner.start && inner.end <= outer.end
}

pub open spec fn width(s: Span) -> int {
    s.end - s.start
}

/// The innermost region containing `span`, the first among equally narrow
/// ones.
pub open spec fn innermost(regions: Seq<Elsewhere>, span: Span) -> Option<int>
    decreases regions.len(),
{
    if regions.len() == 0 {
        None
    } else {
        let rest = innermost(regions.drop_last(), span);
        let k = regions.len() - 1;
        if contains_span(regions[k].span, span) {
            match rest {
                None => Some(k),
                Some(b) => if width(regions[k].span) < width(regions[b].span) {
                    Some(k)
                } else {
                    rest
                },
            }
        } else {
            rest
        }
    }
}

/// Every region that contains `span` runs forwards, so its width can be
/// taken.
pub open spec fn spans_ordered(regions: Seq<Elsewhere>, span: Span) -> bool {
    forall|k: int|
        0 <= k < regions.len() && contains_span(#[trigger] regions[k].span, span) ==> regions[k].span.start
            <= regions[k].span.end
}

/// The context a span sits inside: the innermost region's, or `Render`.
pub open spec fn context_of_spec(regions: Seq<Elsewhere>, span: Span) -> Context {
    match innermost(regions, span) {
        Some(k) => regions[k].context,
        None => Context::Render,
    }
}

proof fn lemma_innermost_in_range(regions: Seq<Elsewhere>, span: Span)
    ensures
        innermost(regions, span) matches Some(k) ==> 0 <= k < regions.len() && contains_span(
            regions[k].span,
            span,
        ),
    decreases regions.len(),
{
    if regions.len() > 0 {
        lemma_innermost_in_range(regions.drop_last(), span);
    }
}

/// The context a span sits inside, or `Render`. The innermost region
/// wins: a handler inside a frame is an interaction, not a frame phase.
pub fn context_of(regions: &[Elsewhere], span: &Span) -> (r: Context)
    requires
        spans_ordered(regions@, *span),
    ensures
        r == context_of_spec(regions@, *span),
{
    let n: usize = regions.len();
    let mut best: Option<usize> = None;
    let mut i: usize = 0;
    while i < n
        invariant
            n == regions@.len(),
            i <= n,
            spans_ordered(regions@, *span),
            best == match innermost(regions@.subrange(0, i as int), *span) {
                Some(k) => Some(k as usize),
                None => None::<usize>,
            },
            best matches Some(b) ==> b < i && contains_span(regions@[b as int].span, *span),
        decreases n - i,
    {
        proof {
            let s = regions@.subrange(0, i + 1);
            assert(s.drop_last() =~= regions@.subrange(0, i as int));
            lemma_innermost_in_range(regions@.subrange(0, i as int), *span);
        }
        let r: &Elsewhere = &regions[i];
        if r.span.start <= span.start && span.end <= r.span.end {
            match best {
                None => {
                    best = Some(i);
                },
                Some(b) => {
                    if r.span.end - r.span.start < regions[b].span.end - regions[b].span.start {
                        best = Some(i);
                    }
                },
            }
        }
        i = i + 1;
    }
    assert(regions@.subrange(0, n as int) =~= regions@);
    proof {
        lemma_innermost_in_range(regions@, *span);
    }
    match best {
        Some(b) => regions[b].context,
        None => Context::Render,
    }
}

/// Does this span's work belong to the enclosing body's effect row at all?
pub fn effects_belong_here(regions: &[Elsewhere], span: &Span) -> (r: bool)
    requires
        spans_ordered(regions@, *span),
    ensures
        r == !another_declaration(context_of_spec(regions@, *span)),
{
    !context_of(regions, span).belongs_to_another_declaration()
}

/// Does this span's work happen while the enclosing body renders?
pub fn at_render_time(regions: &[Elsewhere], span: &Span) -> (r: bool)
    requires
        spans_ordered(regions@, *span),
    ensures
        r == !later(context_of_spec(regions@, *span)),
{
    !context_of(regions, span).runs_later()
}

// --- the laws of contexts ----------------------------------------------------------

/// **The innermost region wins.** The region a span is read in contains it,
/// and no region that contains it is narrower; a span no region contains is
/// the enclosing body's own work.
pub proof fn the_innermost_region_wins(regions: Seq<Elsewhere>, span: Span)
    ensures
        innermost(regions, span) is Some ==> {
            let k = innermost(regions, span)->0;
            &&& 0 <= k < regions.len()
            &&& contains_span(regions[k].span, span)
            &&& forall|j: int|
                0 <= j < regions.len() && contains_span(#[trigger] regions[j].span, span) ==> width(
                    regions[k].span,
                ) <= width(regions[j].span)
        },
        innermost(regions, span) is None <==> forall|j: int|
            0 <= j < regions.len() ==> !contains_span(#[trigger] regions[j].span, span),
        innermost(regions, span) is None ==> context_of_spec(regions, span) == Context::Render,
    decreases regions.len(),
{
    if regions.len() > 0 {
        let init = regions.drop_last();
        the_innermost_region_wins(init, span);
        assert forall|j: int| 0 <= j < init.len() implies #[trigger] init[j] == regions[j] by {}
        let last = regions.len() - 1;
        if innermost(regions, span) is Some {
            let k = innermost(regions, span)->0;
            assert forall|j: int|
                0 <= j < regions.len() && contains_span(#[trigger] regions[j].span, span) implies width(
                    regions[k].span,
                ) <= width(regions[j].span) by {
                if j < last {
                    assert(contains_span(init[j].span, span));
                }
            }
        }
        if innermost(regions, span) is None {
            assert forall|j: int| 0 <= j < regions.len() implies !contains_span(#[trigger] regions[j].span, span) by {
                if j < last {
                    assert(!contains_span(init[j].span, span));
                }
            }
        }
    }
}

/// **Work elsewhere and work later are separate questions**: work that
/// belongs to another declaration never counts as this body's work done
/// later, and work done later is still this body's.
pub proof fn another_declaration_is_not_later(c: Context)
    ensures
        another_declaration(c) ==> !later(c),
        later(c) ==> !another_declaration(c),
{
}

proof fn lemma_elsewhere_keeps(body: Body, i: int, n: int)
    requires
        0 <= i < n,
    ensures
        forall|x: (Span, Context)| #[trigger] regions_of(body, i).contains(x) ==> elsewhere_spec(body, n).contains(x),
    decreases n,
{
    if i < n - 1 {
        lemma_elsewhere_keeps(body, i, n - 1);
    }
    assert forall|x: (Span, Context)| #[trigger] regions_of(body, i).contains(x) implies elsewhere_spec(body, n).contains(x) by {
        let prev = elsewhere_spec(body, n - 1);
        let here = regions_of(body, n - 1);
        assert(elsewhere_spec(body, n) == prev + here);
        if i < n - 1 {
            let k = choose|k: int| 0 <= k < prev.len() && prev[k] == x;
            assert((prev + here)[k] == x);
        } else {
            let k = choose|k: int| 0 <= k < here.len() && here[k] == x;
            assert((prev + here)[prev.len() + k] == x);
        }
    }
}

/// **Each keyword form of the context table runs its work where the table
/// says**: an expression `query ..` is a region of its query, `command ..`
/// of its command, `subscription ..` and `subscribe ..` of a subscription's
/// scope, `post_paint { .. }`, `frame { .. }` and `animate { .. }` of a
/// later frame phase, and `task ..` and `resource ..` of an interaction;
/// `elsewhere` reports the expression's span in that context.
pub proof fn a_keyword_form_runs_where_the_table_says(body: Body, i: int, context: Context)
    requires
        0 <= i < body.exprs@.len(),
        body.exprs@[i].0 matches Expr::Keyword { keyword, .. } && {
            ||| keyword@ == "query"@ && context == Context::Query
            ||| keyword@ == "command"@ && context == Context::Command
            ||| (keyword@ == "subscription"@ || keyword@ == "subscribe"@) && context == Context::Subscription
            ||| (keyword@ == "post_paint"@ || keyword@ == "frame"@ || keyword@ == "animate"@) && context
                == Context::FramePhase
            ||| (keyword@ == "task"@ || keyword@ == "resource"@) && context == Context::Interaction
        },
    ensures
        elsewhere_spec(body, body.exprs@.len() as int).contains((body.exprs@[i].1, context)),
{
    reveal_strlit("query");
    reveal_strlit("command");
    reveal_strlit("subscription");
    reveal_strlit("subscribe");
    reveal_strlit("post_paint");
    reveal_strlit("frame");
    reveal_strlit("animate");
    reveal_strlit("task");
    reveal_strlit("resource");
    assert("query"@[0] != "frame"@[0]);
    assert("command"@[0] != "animate"@[0]);
    assert("query"@.len() != "command"@.len() && "query"@.len() != "subscription"@.len());
    let k = match body.exprs@[i].0 {
        Expr::Keyword { keyword, .. } => keyword@,
        _ => seq![],
    };
    assert("query"@.len() == 5 && "command"@.len() == 7 && "subscription"@.len() == 12);
    assert("subscribe"@.len() == 9 && "post_paint"@.len() == 10 && "frame"@.len() == 5);
    assert("animate"@.len() == 7 && "task"@.len() == 4 && "resource"@.len() == 8);
    assert(keyword_context("query"@) == Some(Context::Query));
    assert(keyword_context("command"@) == Some(Context::Command));
    assert(keyword_context("subscription"@) == Some(Context::Subscription));
    assert(keyword_context("subscribe"@) == Some(Context::Subscription));
    assert(keyword_context("post_paint"@) == Some(Context::FramePhase));
    assert(keyword_context("frame"@) == Some(Context::FramePhase));
    assert(keyword_context("animate"@) == Some(Context::FramePhase));
    assert(keyword_context("task"@) == Some(Context::Interaction));
    assert(keyword_context("resource"@) == Some(Context::Interaction));
    assert(keyword_context(k) == Some(context));
    assert(regions_of(body, i) == seq![(body.exprs@[i].1, context)]);
    assert(regions_of(body, i)[0] == (body.exprs@[i].1, context));
    assert(regions_of(body, i).contains((body.exprs@[i].1, context)));
    lemma_elsewhere_keeps(body, i, body.exprs@.len() as int);
}

/// **Post-paint work is not render-time work**: a span inside a
/// `post_paint`, `frame` or `animate` region, and inside no narrower region,
/// is not done at render time.
pub proof fn frame_phase_work_is_not_render_time(regions: Seq<Elsewhere>, span: Span, k: int)
    requires
        0 <= k < regions.len(),
        regions[k].context == Context::FramePhase,
        contains_span(regions[k].span, span),
        forall|j: int| 0 <= j < regions.len() && j != k ==> !contains_span(#[trigger] regions[j].span, span),
        spans_ordered(regions, span),
    ensures
        later(context_of_spec(regions, span)),
{
    the_innermost_region_wins(regions, span);
    assert(innermost(regions, span) is Some);
}

/// **No other keyword form runs elsewhere**: a keyword that is none of
/// `query`, `command`, `subscription`, `subscribe`, `post_paint`, `frame`,
/// `animate`, `task` and `resource` contributes no region: its work is the
/// body's own.
pub proof fn any_other_keyword_runs_here(body: Body, i: int)
    requires
        0 <= i < body.exprs@.len(),
        body.exprs@[i].0 matches Expr::Keyword { keyword, .. } && !{
            ||| keyword@ == "query"@ || keyword@ == "command"@ || keyword@ == "subscription"@
            ||| keyword@ == "subscribe"@ || keyword@ == "post_paint"@ || keyword@ == "frame"@
            ||| keyword@ == "animate"@ || keyword@ == "task"@ || keyword@ == "resource"@
        },
    ensures
        regions_of(body, i) == Seq::<(Span, Context)>::empty(),
{
}

/// **A handler runs when the user acts, and a stream's query in the stream's
/// task**: an attribute named `on:..` runs its expression as an
/// interaction; the `query` attribute of a `<stream>` runs it in the stream
/// task; no other attribute runs anything elsewhere.
pub proof fn where_an_attribute_runs(tag: Seq<char>, name: Seq<char>)
    ensures
        has_prefix(name, "on:"@) ==> attribute_context(tag, name) == Some(Context::Interaction),
        !has_prefix(name, "on:"@) && tag == "stream"@ && name == "query"@ ==> attribute_context(tag, name) == Some(
            Context::StreamTask,
        ),
        !has_prefix(name, "on:"@) && !(tag == "stream"@ && name == "query"@) ==> attribute_context(tag, name) is None,
{
}

} // verus!
