//! The lowered program, as the analyses in this library read it: each file's
//! declarations, their headers, and the bodies they own.
//!
//! Ids and spans only. Every reference from one part to another is an index
//! into the arena that owns it, and `well_formed` says each one is in range.
use vstd::prelude::*;

use crate::diagnostics::Span;

verus! {

/// What a declaration is.
#[derive(Debug, Clone, Copy, PartialEq, Eq, Structural)]
pub enum DeclKind {
    Fn,
    Type,
    Opaque,
    Query,
    Command,
    Page,
    View,
    Component,
    Subscription,
    Resource,
    Task,
    Effect,
    Materialize,
}

/// One parameter: its name and, where it is annotated, its type's head and
/// the head's arguments as written.
#[derive(Debug, Clone)]
pub struct Param {
    pub name: String,
    pub ty: Option<String>,
    pub ty_args: Vec<String>,
}

/// One case of a declared sum type.
#[derive(Debug, Clone)]
pub struct Variant {
    pub name: String,
}

/// One effect in a declaration's written row.
#[derive(Debug, Clone)]
pub struct EffectRef {
    /// The effect as written: `database.read<Stores>`.
    pub written: String,
    /// Its path, without arguments: `database.read`.
    pub path: String,
    pub span: Span,
}

/// A declaration's header, and the body it owns.
#[derive(Debug, Clone)]
pub struct Decl {
    pub name: String,
    pub kind: DeclKind,
    /// `session`, `user`, `organization`, ... where the header writes one.
    pub visibility: Option<String>,
    pub params: Vec<Param>,
    /// The declared return type's head, when something is returned.
    pub ret: Option<String>,
    /// The return type's arguments: `Result<Store, StoreError>` gives
    /// `["Store", "StoreError"]`.
    pub ret_args: Vec<String>,
    /// A sum type's cases.
    pub variants: Option<Vec<Variant>>,
    /// The effect row the header writes, when it writes one.
    pub declared_effects: Option<Vec<EffectRef>>,
    /// The index of its body in the file's bodies.
    pub body: Option<usize>,
    /// Where the declaration is written.
    pub span: Span,
}

/// An attribute's value: text, or an expression of the body.
#[derive(Debug, Clone)]
pub enum AttrValue {
    Static(String),
    Expr(usize),
}

#[derive(Debug, Clone)]
pub struct Attr {
    pub name: String,
    pub value: AttrValue,
    pub span: Span,
}

/// One arm of a template `{#match}`: the case it names as written
/// (`Some`, `Shape.Circle`), and the names it binds.
#[derive(Debug, Clone)]
pub struct TemplateArm {
    pub case: String,
    pub bindings: Vec<String>,
}

/// One markup node.
#[derive(Debug, Clone)]
pub enum Node {
    /// An element, its attributes, and its child nodes in order.
    Element { tag: String, attrs: Vec<Attr>, children: Vec<usize> },
    Text(String),
    /// A template block: its opening directive as written, its child nodes
    /// in order, the expression it tests or takes apart, and its closing
    /// directive as written, empty when nothing closes it.
    Block { directive: String, children: Vec<usize>, subject: Option<usize>, close: String },
    /// A marker inside a block, `{:else}`, `{:else if c}`, `{:Some(x)}`: as
    /// written, the condition it carries, and the arm it names.
    Branch { marker: String, condition: Option<usize>, arm: Option<TemplateArm> },
}

/// One expression of a body. Sub-expressions are ids into the same body.
#[derive(Debug, Clone)]
pub enum Expr {
    Name(String),
    /// A keyword form: `query Cart(session)`, `post_paint { .. }`,
    /// `unsafe.partial_match because "why" attributes_forced_layout_to Owner { .. }`,
    /// with the justification and the attribution target where it writes them.
    Keyword { keyword: String, justification: Option<String>, attribution: Option<String> },
    Call { callee: usize, args: Vec<usize> },
    /// `base.name`: a field read, or one step of a dotted path.
    Field { base: usize, name: String },
    Block { stmts: Vec<usize> },
    /// Markup: every node of the template, in document order.
    Template { nodes: Vec<usize> },
    Lambda { body: usize },
    Match { scrutinee: usize },
    Other,
}

/// A body: its expressions and markup nodes, each with its span.
#[derive(Debug, Clone)]
pub struct Body {
    pub exprs: Vec<(Expr, Span)>,
    pub nodes: Vec<(Node, Span)>,
}

impl Body {
    /// Every id the body refers to names one of its own expressions or nodes.
    pub open spec fn well_formed(&self) -> bool {
        &&& forall|i: int|
            0 <= i < self.exprs@.len() ==> expr_refs_in_range(
                #[trigger] self.exprs@[i].0,
                self.exprs@.len() as int,
                self.nodes@.len() as int,
                self.nodes@,
            )
        &&& forall|i: int|
            0 <= i < self.nodes@.len() ==> children_in_range(#[trigger] self.nodes@[i].0, self.nodes@.len() as int)
    }
}

impl Body {
    /// Each field read comes after its base in the arena, as lowering
    /// allocates a sub-expression before the expression that holds it; so a
    /// dotted path can be read back to its head.
    pub open spec fn field_bases_precede(&self) -> bool {
        forall|i: int|
            0 <= i < self.exprs@.len() ==> match #[trigger] self.exprs@[i].0 {
                Expr::Field { base, .. } => base < i,
                _ => true,
            }
    }
}

pub open spec fn expr_refs_in_range(e: Expr, n_exprs: int, n_nodes: int, nodes: Seq<(Node, Span)>) -> bool {
    match e {
        Expr::Call { callee, args } => callee < n_exprs && forall|k: int|
            0 <= k < args@.len() ==> #[trigger] args@[k] < n_exprs,
        Expr::Block { stmts } => forall|k: int| 0 <= k < stmts@.len() ==> #[trigger] stmts@[k] < n_exprs,
        Expr::Template { nodes: ns } => forall|k: int|
            0 <= k < ns@.len() ==> #[trigger] ns@[k] < n_nodes && node_refs_in_range(
                nodes[ns@[k] as int].0,
                n_exprs,
            ),
        Expr::Lambda { body } => body < n_exprs,
        Expr::Field { base, .. } => base < n_exprs,
        Expr::Match { scrutinee } => scrutinee < n_exprs,
        _ => true,
    }
}

pub open spec fn node_refs_in_range(n: Node, n_exprs: int) -> bool {
    match n {
        Node::Element { attrs, .. } => forall|k: int|
            0 <= k < attrs@.len() ==> match #[trigger] attrs@[k].value {
                AttrValue::Expr(e) => e < n_exprs,
                _ => true,
            },
        Node::Block { subject, .. } => subject matches Some(s) ==> s < n_exprs,
        _ => true,
    }
}

/// An element's or a block's children are nodes of the same body.
pub open spec fn children_in_range(n: Node, n_nodes: int) -> bool {
    match n {
        Node::Element { children, .. } => forall|k: int| 0 <= k < children@.len() ==> #[trigger] children@[k] < n_nodes,
        Node::Block { children, .. } => forall|k: int| 0 <= k < children@.len() ==> #[trigger] children@[k] < n_nodes,
        _ => true,
    }
}

/// One lowered file.
#[derive(Debug, Clone)]
pub struct Hir {
    /// The module the file's header names, when it names one.
    pub module: Option<String>,
    pub decls: Vec<Decl>,
    pub bodies: Vec<Body>,
}

} // verus!
