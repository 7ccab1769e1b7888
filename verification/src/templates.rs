//! **Template blocks take only the markers their kind allows.** An `{#if}`
//! takes `{:else if c}` markers and one `{:else}`, last; an `{#each}` takes
//! none; a `{#match}` takes one arm per case of its subject's type, and
//! every case has one. A block is closed by its own closer, and a marker
//! stands inside a block.
//!
//! What the subject of a block is comes from type inference, and which type
//! a qualified arm names from name resolution: both are handed in as plain
//! values.
use vstd::prelude::*;
use vstd::string::*;

use crate::binding::{decimal, decimal_text};
use crate::check::{path_of, path_spec};
use crate::codes::{code_view, registry, Code, Owner};
use crate::diagnostics::{copy_span, diagnostic_view, diagnostic_views, Detector, Diagnostic, DiagnosticView, Related, Repair, Severity, Span};
use crate::hir::{Body, Decl, Expr, Hir, Node, TemplateArm};
use crate::text::{has_prefix, slice, starts_with, str_eq, trim, trim_end_char, trimmed, trimmed_end_char};

verus! {

/// What inference knows of a block's subject.
#[derive(Debug, Clone)]
pub enum SubjectType {
    /// The language's `Option`.
    Option,
    /// The language's `Result`.
    Result,
    /// A declared sum type: as written, each case with its field count, and
    /// the declaration.
    Declared { name: String, cases: Vec<(String, usize)>, def: usize },
    /// Any other type, as written.
    Other(String),
}

pub const MALFORMED_EXPLANATION: &'static str = "A block's markers decide what renders. A marker the block does not take is not ignored safely: until 2026-09-25 a dropped `{:else}` rendered both of an `if`'s branches at once.";

pub const EXHAUSTIVE_EXPLANATION: &'static str = "A template match is exhaustive, as every match is (ADR-0011): an arm that renders nothing is written, not implied.";

// ---------------------------------------------------------------- text

/// Whether `c` is alphabetic or numeric, as Unicode defines them: what
/// `char::is_alphanumeric` answers.
pub uninterp spec fn alphanumeric(c: char) -> bool;

/// `char::is_alphanumeric`. Its result is a function of `c` alone; of it
/// this states what std's documentation gives for ASCII: the letters and
/// digits are alphanumeric and nothing else in ASCII is. Which other
/// characters are is left to the name.
#[verifier::external_body]
fn is_alphanumeric(c: char) -> (r: bool)
    ensures
        r == alphanumeric(c),
        ('a' <= c <= 'z' || 'A' <= c <= 'Z' || '0' <= c <= '9') ==> r,
        (c as u32) < 128 && !('a' <= c <= 'z' || 'A' <= c <= 'Z' || '0' <= c <= '9') ==> !r,
{
    c.is_alphanumeric()
}

pub open spec fn word_char(c: char) -> bool {
    alphanumeric(c) || c == '_'
}

/// The leading run of alphanumerics and `_`.
pub open spec fn word(s: Seq<char>) -> Seq<char>
    decreases s.len(),
{
    if s.len() > 0 && word_char(s[0]) {
        seq![s[0]] + word(s.drop_first())
    } else {
        seq![]
    }
}

/// `s` with every leading copy of `p` taken off.
pub open spec fn strip_all(s: Seq<char>, p: Seq<char>) -> Seq<char>
    decreases s.len(),
{
    if p.len() > 0 && has_prefix(s, p) {
        strip_all(s.subrange(p.len() as int, s.len() as int), p)
    } else {
        s
    }
}

/// The name a closing directive closes: `{/if}` gives `if`.
pub open spec fn closer(close: Seq<char>) -> Seq<char> {
    trim(trim_end_char(strip_all(trim(close), "{/"@), '}'))
}

/// Where the last `.` of `s` is.
pub open spec fn last_dot(s: Seq<char>) -> Option<int>
    decreases s.len(),
{
    if s.len() == 0 {
        None
    } else if s.last() == '.' {
        Some(s.len() - 1)
    } else {
        last_dot(s.drop_last())
    }
}

/// A case without its qualifier: `Shape.Circle` gives `Circle`.
pub open spec fn short(case: Seq<char>) -> Seq<char> {
    match last_dot(case) {
        Some(i) => case.subrange(i + 1, case.len() as int),
        None => case,
    }
}

pub open spec fn tick(x: Seq<char>) -> Seq<char> {
    "`"@ + x + "`"@
}

/// Each case's name in backticks, separated by `, `.
pub open spec fn ticked(cs: Seq<(Seq<char>, usize)>) -> Seq<char>
    decreases cs.len(),
{
    if cs.len() == 0 {
        seq![]
    } else if cs.len() == 1 {
        tick(cs[0].0)
    } else {
        ticked(cs.drop_last()) + ", "@ + tick(cs.last().0)
    }
}

/// The names, separated by "` or `".
pub open spec fn or_list(ms: Seq<Seq<char>>) -> Seq<char>
    decreases ms.len(),
{
    if ms.len() == 0 {
        seq![]
    } else if ms.len() == 1 {
        ms[0]
    } else {
        or_list(ms.drop_last()) + "` or `"@ + ms.last()
    }
}

/// The value of the first entry named `x`.
pub open spec fn first_named(s: Seq<(Seq<char>, usize)>, x: Seq<char>) -> Option<usize>
    decreases s.len(),
{
    if s.len() == 0 {
        None
    } else {
        match first_named(s.drop_last(), x) {
            Some(v) => Some(v),
            None => if s.last().0 == x {
                Some(s.last().1)
            } else {
                None
            },
        }
    }
}

pub open spec fn names_view(s: Seq<(String, usize)>) -> Seq<(Seq<char>, usize)> {
    s.map_values(|c: (String, usize)| (c.0@, c.1))
}

// ---------------------------------------------------------------- families

/// The family a case name belongs to when it is the language's own.
pub open spec fn family_of(case: Seq<char>) -> Option<Seq<char>> {
    if case == "Some"@ || case == "None"@ {
        Some("Option"@)
    } else if case == "Ok"@ || case == "Err"@ {
        Some("Result"@)
    } else {
        None
    }
}

/// A family: its name, each case with its field count, and the declaration
/// of a declared one.
pub open spec fn builtin(family: Seq<char>) -> (Seq<char>, Seq<(Seq<char>, usize)>, Option<usize>) {
    if family == "Option"@ {
        (family, seq![("Some"@, 1usize), ("None"@, 0usize)], None)
    } else {
        (family, seq![("Ok"@, 1usize), ("Err"@, 1usize)], None)
    }
}

/// The cases of the family that are not among `seen`, in order.
pub open spec fn missing(cs: Seq<(Seq<char>, usize)>, seen: Seq<Seq<char>>) -> Seq<Seq<char>>
    decreases cs.len(),
{
    if cs.len() == 0 {
        seq![]
    } else {
        missing(cs.drop_last(), seen) + if seen.contains(cs.last().0) {
            seq![]
        } else {
            seq![cs.last().0]
        }
    }
}

// ---------------------------------------------------------------- reports

/// A report of this rule: one related span, where the declaration is.
pub open spec fn template_view(
    code: (Seq<char>, Seq<char>, Owner),
    reason: Seq<char>,
    detector: Detector,
    message: Seq<char>,
    at: Span,
    decl: Decl,
    explanation: Option<Seq<char>>,
    repairs: Seq<Seq<char>>,
) -> DiagnosticView {
    DiagnosticView {
        code: code.0,
        invariant: code.1,
        reason,
        detector,
        severity: Severity::Error,
        message,
        primary_span: at,
        related: seq![(decl.span, tick(decl.name@) + " renders this"@)],
        explanation,
        repairs: repairs.map_values(|r: Seq<char>| (r, None::<(Span, Seq<char>)>)),
    }
}

pub open spec fn malformed(decl: Decl, at: Span, message: Seq<char>) -> DiagnosticView {
    template_view(
        registry()[35],
        "malformed_template_block"@,
        Detector::DeclarationRule,
        message,
        at,
        decl,
        Some(MALFORMED_EXPLANATION@),
        seq![],
    )
}

pub open spec fn option_view(decl: Decl, at: Span, written: Seq<char>) -> DiagnosticView {
    template_view(
        registry()[38],
        "optional_tested_by_if"@,
        Detector::PatternMatrix,
        "`{#if "@ + written + "}` tests a value that may be absent; `{#match "@ + written + "}` takes it apart"@,
        at,
        decl,
        None,
        seq!["write `{#match "@ + written + "}{:Some(x)} .. {:None} .. {/match}`"@],
    )
}

pub open spec fn not_a_case_view(
    decl: Decl,
    at: Span,
    why: Seq<char>,
    family: (Seq<char>, Seq<(Seq<char>, usize)>, Option<usize>),
) -> DiagnosticView {
    template_view(
        registry()[36],
        "pattern_names_a_constructor_its_type_lacks"@,
        Detector::PatternMatrix,
        tick(why) + " is not a constructor of "@ + tick(family.0),
        at,
        decl,
        None,
        seq![tick(family.0) + "'s constructors are "@ + ticked(family.1)],
    )
}

pub open spec fn arity_view(decl: Decl, at: Span, case: Seq<char>, bound: nat, fields: nat) -> DiagnosticView {
    template_view(
        registry()[37],
        "constructor_pattern_arity_mismatch"@,
        Detector::PatternMatrix,
        tick(case) + " binds "@ + decimal(bound) + " field(s) but declares "@ + decimal(fields),
        at,
        decl,
        None,
        seq!["bind each of "@ + tick(case) + "'s "@ + decimal(fields) + " field(s), or none"@],
    )
}

pub open spec fn uncovered_view(decl: Decl, at: Span, d: Seq<char>, ms: Seq<Seq<char>>) -> DiagnosticView {
    template_view(
        registry()[19],
        "non_exhaustive_match"@,
        Detector::PatternMatrix,
        tick(d) + " does not cover "@ + tick(or_list(ms)),
        at,
        decl,
        Some(EXHAUSTIVE_EXPLANATION@),
        ms.map_values(|m: Seq<char>| "add a `{:"@ + m + "}` arm"@),
    )
}

// ---------------------------------------------------------------- one block

/// The branch markers among a block's children, in order.
pub open spec fn branches(body: Body, children: Seq<usize>) -> Seq<usize>
    decreases children.len(),
{
    if children.len() == 0 {
        seq![]
    } else {
        branches(body, children.drop_last()) + if body.nodes@[children.last() as int].0 is Branch {
            seq![children.last()]
        } else {
            seq![]
        }
    }
}

/// A marker as written, trimmed.
pub open spec fn marker_of(body: Body, b: usize) -> Seq<char> {
    match body.nodes@[b as int].0 {
        Node::Branch { marker, .. } => trim(marker@),
        _ => seq![],
    }
}

pub open spec fn span_of(body: Body, n: usize) -> Span {
    body.nodes@[n as int].1
}

/// The reports on an `{#if}`'s markers, the first `k` of `bs`.
pub open spec fn if_reports(decl: Decl, body: Body, bs: Seq<usize>, k: int) -> Seq<DiagnosticView>
    decreases k,
{
    if k <= 0 {
        seq![]
    } else {
        let b = bs[k - 1];
        let last = k == bs.len();
        let conditional = match body.nodes@[b as int].0 {
            Node::Branch { condition, .. } => condition is Some,
            _ => false,
        };
        if_reports(decl, body, bs, k - 1) + if conditional || (marker_of(body, b) == "{:else}"@ && last) {
            seq![]
        } else {
            seq![
                malformed(
                    decl,
                    span_of(body, b),
                    "an `{#if}` takes `{:else if c}` markers and one `{:else}`, last; not "@ + tick(marker_of(body, b))
                        + " here"@,
                ),
            ]
        }
    }
}

/// Whether something other than white-space text comes before a block's
/// first arm.
pub open spec fn stray_before_arms(body: Body, children: Seq<usize>) -> bool
    decreases children.len(),
{
    if children.len() == 0 {
        false
    } else {
        match body.nodes@[children[0] as int].0 {
            Node::Branch { .. } => false,
            Node::Text(t) => if trim(t@).len() == 0 {
                stray_before_arms(body, children.drop_first())
            } else {
                true
            },
            _ => true,
        }
    }
}

/// One `{#match}` arm's step: the reports it adds, and the family and the
/// cases seen after it.
pub open spec fn arm_step(
    decl: Decl,
    body: Body,
    resolved: Seq<(Seq<char>, usize)>,
    b: usize,
    family: Option<(Seq<char>, Seq<(Seq<char>, usize)>, Option<usize>)>,
    seen: Seq<Seq<char>>,
) -> (Seq<DiagnosticView>, Option<(Seq<char>, Seq<(Seq<char>, usize)>, Option<usize>)>, Seq<Seq<char>>) {
    let at = span_of(body, b);
    match body.nodes@[b as int].0 {
        Node::Branch { arm: Some(arm), .. } => {
            let s = short(arm.case@);
            if family is None && family_of(s) is None {
                (
                    seq![malformed(decl, at, tick(s) + " is a declared type's case, and the subject's type is not known here"@)],
                    family,
                    seen,
                )
            } else {
                let f = match family {
                    Some(f) => f,
                    None => builtin(family_of(s).unwrap()),
                };
                let qualifier_names_it = match last_dot(arm.case@) {
                    Some(i) => match (first_named(resolved, arm.case@.subrange(0, i)), f.2) {
                        (Some(d), Some(t)) => d == t,
                        _ => false,
                    },
                    None => true,
                };
                if !qualifier_names_it {
                    (seq![not_a_case_view(decl, at, arm.case@, f)], Some(f), seen)
                } else {
                    match first_named(f.1, s) {
                        None => (seq![not_a_case_view(decl, at, s, f)], Some(f), seen),
                        Some(fields) => {
                            let n = arm.bindings@.len();
                            (
                                (if n != 0 && n != fields {
                                    seq![arity_view(decl, at, s, n, fields as nat)]
                                } else {
                                    seq![]
                                }) + (if f.2 is Some && family_of(s) is Some {
                                    seq![
                                        malformed(
                                            decl,
                                            at,
                                            tick(s)
                                                + " is a declared case named like the language's own, which a template cannot tell apart"@,
                                        ),
                                    ]
                                } else {
                                    seq![]
                                }) + (if seen.contains(s) {
                                    seq![malformed(decl, at, "a second `{:"@ + s + "}` arm can never render"@)]
                                } else {
                                    seq![]
                                }),
                                Some(f),
                                seen.push(s),
                            )
                        },
                    }
                }
            }
        },
        _ => (
            seq![
                malformed(
                    decl,
                    at,
                    tick(marker_of(body, b))
                        + " is not an arm: a `{#match}` arm is a case, `{:Some(x)}`, `{:None}` or a declared case like `{:Circle(r)}`"@,
                ),
            ],
            family,
            seen,
        ),
    }
}

/// The first `k` arms of a `{#match}`, from the family its subject gives.
pub open spec fn arms(
    decl: Decl,
    body: Body,
    resolved: Seq<(Seq<char>, usize)>,
    bs: Seq<usize>,
    k: int,
    init: Option<(Seq<char>, Seq<(Seq<char>, usize)>, Option<usize>)>,
) -> (Seq<DiagnosticView>, Option<(Seq<char>, Seq<(Seq<char>, usize)>, Option<usize>)>, Seq<Seq<char>>)
    decreases k,
{
    if k <= 0 {
        (seq![], init, seq![])
    } else {
        let (reports, family, seen) = arms(decl, body, resolved, bs, k - 1, init);
        let (more, family, seen) = arm_step(decl, body, resolved, bs[k - 1], family, seen);
        (reports + more, family, seen)
    }
}

/// The family a subject's type gives before any arm is read.
pub open spec fn subject_family(ty: Option<SubjectType>) -> Option<(Seq<char>, Seq<(Seq<char>, usize)>, Option<usize>)> {
    match ty {
        Some(SubjectType::Option) => Some(builtin("Option"@)),
        Some(SubjectType::Result) => Some(builtin("Result"@)),
        Some(SubjectType::Declared { name, cases, def }) => Some((name@, names_view(cases@), Some(def))),
        _ => None,
    }
}

pub open spec fn subject_type(types: Seq<Option<SubjectType>>, subject: Option<usize>) -> Option<SubjectType> {
    match subject {
        Some(s) => types[s as int],
        None => None,
    }
}

/// The reports on a `{#match}` block.
pub open spec fn match_reports(
    decl: Decl,
    body: Body,
    types: Seq<Option<SubjectType>>,
    resolved: Seq<(Seq<char>, usize)>,
    at: Span,
    d: Seq<char>,
    children: Seq<usize>,
    subject: Option<usize>,
) -> Seq<DiagnosticView> {
    let stray = if stray_before_arms(body, children) {
        seq![malformed(decl, at, "a `{#match}` holds only its arms: nothing may come before the first"@)]
    } else {
        seq![]
    };
    match subject_type(types, subject) {
        Some(SubjectType::Other(t)) => stray + seq![
            malformed(
                decl,
                at,
                "a `{#match}` takes an `Option`, a `Result` or a sum type apart, and its subject is "@ + tick(t@),
            ),
        ],
        ty => {
            let bs = branches(body, children);
            let (reports, family, seen) = arms(decl, body, resolved, bs, bs.len() as int, subject_family(ty));
            stray + reports + match family {
                Some(f) => if missing(f.1, seen).len() == 0 {
                    seq![]
                } else {
                    seq![uncovered_view(decl, at, d, missing(f.1, seen))]
                },
                None => seq![],
            }
        },
    }
}

/// The reports on a block's closer.
pub open spec fn closing_reports(decl: Decl, at: Span, name: Seq<char>, close: Seq<char>) -> Seq<DiagnosticView> {
    if close.len() == 0 {
        seq![malformed(decl, at, "`{#"@ + name + "}` is never closed"@)]
    } else if closer(close) != name {
        seq![malformed(decl, at, "`{#"@ + name + "}` closes with "@ + tick(trim(close)) + ", not `{/"@ + name + "}`"@)]
    } else {
        seq![]
    }
}

/// The reports on the block at node `n`, or none when it is no block.
pub open spec fn block_reports(
    decl: Decl,
    body: Body,
    types: Seq<Option<SubjectType>>,
    resolved: Seq<(Seq<char>, usize)>,
    n: usize,
) -> Seq<DiagnosticView> {
    match body.nodes@[n as int].0 {
        Node::Block { directive, children, subject, close } => {
            let d = trim(directive@);
            let at = span_of(body, n);
            if has_prefix(d, "{/"@) {
                seq![malformed(decl, at, tick(d) + " closes no block"@)]
            } else {
                let name = word(strip_all(d, "{#"@));
                if !(name == "if"@ || name == "each"@ || name == "match"@) {
                    seq![
                        malformed(
                            decl,
                            at,
                            tick(d) + " is not a template block: the blocks are `{#if}`, `{#each}` and `{#match}`"@,
                        ),
                    ]
                } else {
                    let bs = branches(body, children@);
                    closing_reports(decl, at, name, close@) + if name == "each"@ {
                        if bs.len() > 0 {
                            seq![
                                malformed(
                                    decl,
                                    span_of(body, bs[0]),
                                    "`{#each}` takes no "@ + tick(marker_of(body, bs[0]))
                                        + "; `{#if xs}` around the list says what renders when it is empty"@,
                                ),
                            ]
                        } else {
                            seq![]
                        }
                    } else if name == "if"@ {
                        if_reports(decl, body, bs, bs.len() as int) + match subject_type(types, subject) {
                            Some(SubjectType::Option) | Some(SubjectType::Result) => seq![
                                option_view(decl, at, path_spec(body.exprs@, subject.unwrap() as int)),
                            ],
                            _ => seq![],
                        }
                    } else {
                        match_reports(decl, body, types, resolved, at, d, children@, subject)
                    }
                }
            }
        },
        _ => seq![],
    }
}

// ---------------------------------------------------------------- the body

/// The blocks of the first `j` nodes of a template.
pub open spec fn blocks_in(
    decl: Decl,
    body: Body,
    types: Seq<Option<SubjectType>>,
    resolved: Seq<(Seq<char>, usize)>,
    ns: Seq<usize>,
    j: int,
) -> Seq<DiagnosticView>
    decreases j,
{
    if j <= 0 {
        seq![]
    } else {
        blocks_in(decl, body, types, resolved, ns, j - 1) + block_reports(decl, body, types, resolved, ns[j - 1])
    }
}

/// The blocks of the templates among the first `k` expressions.
pub open spec fn blocks_upto(
    decl: Decl,
    body: Body,
    types: Seq<Option<SubjectType>>,
    resolved: Seq<(Seq<char>, usize)>,
    k: int,
) -> Seq<DiagnosticView>
    decreases k,
{
    if k <= 0 {
        seq![]
    } else {
        blocks_upto(decl, body, types, resolved, k - 1) + match body.exprs@[k - 1].0 {
            Expr::Template { nodes } => blocks_in(decl, body, types, resolved, nodes@, nodes@.len() as int),
            _ => seq![],
        }
    }
}

/// Whether `n` is a child of one of the blocks among the first `j` nodes
/// of `ns`.
pub open spec fn in_blocks(body: Body, ns: Seq<usize>, n: usize, j: int) -> bool
    decreases j,
{
    j > 0 && (in_blocks(body, ns, n, j - 1) || match body.nodes@[ns[j - 1] as int].0 {
        Node::Block { children, .. } => children@.contains(n),
        _ => false,
    })
}

/// Whether `n` is a child of a block of the templates among the first `k`
/// expressions.
pub open spec fn in_templates(body: Body, n: usize, k: int) -> bool
    decreases k,
{
    k > 0 && (in_templates(body, n, k - 1) || match body.exprs@[k - 1].0 {
        Expr::Template { nodes } => in_blocks(body, nodes@, n, nodes@.len() as int),
        _ => false,
    })
}

/// Whether node `n` is a child of a block of some template of the body.
pub open spec fn inside(body: Body, n: usize) -> bool {
    in_templates(body, n, body.exprs@.len() as int)
}

/// The report on a marker no block holds.
pub open spec fn stray_report(decl: Decl, body: Body, n: usize) -> Seq<DiagnosticView> {
    match body.nodes@[n as int].0 {
        Node::Branch { marker, .. } => if inside(body, n) {
            seq![]
        } else {
            seq![malformed(decl, span_of(body, n), tick(trim(marker@)) + " stands outside any block"@)]
        },
        _ => seq![],
    }
}

pub open spec fn strays_in(decl: Decl, body: Body, ns: Seq<usize>, j: int) -> Seq<DiagnosticView>
    decreases j,
{
    if j <= 0 {
        seq![]
    } else {
        strays_in(decl, body, ns, j - 1) + stray_report(decl, body, ns[j - 1])
    }
}

pub open spec fn strays_upto(decl: Decl, body: Body, k: int) -> Seq<DiagnosticView>
    decreases k,
{
    if k <= 0 {
        seq![]
    } else {
        strays_upto(decl, body, k - 1) + match body.exprs@[k - 1].0 {
            Expr::Template { nodes } => strays_in(decl, body, nodes@, nodes@.len() as int),
            _ => seq![],
        }
    }
}

/// What the rule reports on a declaration: each block in document order,
/// then each marker no block holds.
pub open spec fn template_spec(
    hir: Hir,
    decl: Decl,
    types: Seq<Option<SubjectType>>,
    resolved: Seq<(Seq<char>, usize)>,
) -> Seq<DiagnosticView> {
    match decl.body {
        Some(b) => {
            let body = hir.bodies@[b as int];
            blocks_upto(decl, body, types, resolved, body.exprs@.len() as int) + strays_upto(
                decl,
                body,
                body.exprs@.len() as int,
            )
        },
        None => seq![],
    }
}

// ---------------------------------------------------------------- text, executed

/// `s` with every leading copy of `p` taken off.
fn strip_all_of(s: &str, p: &str) -> (r: String)
    requires
        p@.len() > 0,
    ensures
        r@ == strip_all(s@, p@),
{
    let m: usize = p.unicode_len();
    let mut rest: String = String::from_str(s);
    while starts_with(rest.as_str(), p)
        invariant
            m == p@.len(),
            m > 0,
            strip_all(s@, p@) == strip_all(rest@, p@),
        decreases rest@.len(),
    {
        let n: usize = rest.as_str().unicode_len();
        rest = slice(rest.as_str(), m, n);
    }
    rest
}

/// The leading run of alphanumerics and `_` of `s`.
fn word_of(s: &str) -> (r: String)
    ensures
        r@ == word(s@),
{
    let n: usize = s.unicode_len();
    let mut e: usize = 0;
    assert(s@.subrange(0, n as int) =~= s@);
    assert(s@.subrange(0, 0) + word(s@.subrange(0, n as int)) =~= word(s@));
    while e < n && (is_alphanumeric(s.get_char(e)) || s.get_char(e) == '_')
        invariant
            n == s@.len(),
            e <= n,
            word(s@) == s@.subrange(0, e as int) + word(s@.subrange(e as int, n as int)),
        decreases n - e,
    {
        let ghost rest = s@.subrange(e as int, n as int);
        assert(rest.drop_first() =~= s@.subrange(e + 1, n as int));
        assert(s@.subrange(0, e + 1) =~= s@.subrange(0, e as int) + seq![rest[0]]);
        e = e + 1;
    }
    proof {
        assert(s@.subrange(0, e as int) + seq![] =~= s@.subrange(0, e as int));
    }
    slice(s, 0, e)
}

/// The name a closing directive closes.
fn closer_of(close: &str) -> (r: String)
    ensures
        r@ == closer(close@),
{
    proof {
        reveal_strlit("{/");
    }
    let a: String = trimmed(close);
    let b: String = strip_all_of(a.as_str(), "{/");
    let c: String = trimmed_end_char(b.as_str(), '}');
    trimmed(c.as_str())
}

/// Where the last `.` of `s` is.
fn last_dot_of(s: &str) -> (r: Option<usize>)
    ensures
        match r {
            Some(i) => last_dot(s@) == Some(i as int) && i < s@.len(),
            None => last_dot(s@) is None,
        },
{
    let mut e: usize = s.unicode_len();
    assert(s@.subrange(0, e as int) =~= s@);
    while e > 0 && s.get_char(e - 1) != '.'
        invariant
            e <= s@.len(),
            last_dot(s@) == last_dot(s@.subrange(0, e as int)),
        decreases e,
    {
        assert(s@.subrange(0, e as int).drop_last() =~= s@.subrange(0, e - 1));
        e = e - 1;
    }
    if e == 0 {
        assert(s@.subrange(0, 0) =~= Seq::<char>::empty());
        None
    } else {
        Some(e - 1)
    }
}

/// `a + b + c`, as text.
fn cat3(a: &str, b: &str, c: &str) -> (r: String)
    ensures
        r@ == a@ + b@ + c@,
{
    let mut s: String = String::from_str(a);
    s.append(b);
    s.append(c);
    s
}

/// `a + b + c + d + e`, as text.
fn cat5(a: &str, b: &str, c: &str, d: &str, e: &str) -> (r: String)
    ensures
        r@ == a@ + b@ + c@ + d@ + e@,
{
    let mut s: String = String::from_str(a);
    s.append(b);
    s.append(c);
    s.append(d);
    s.append(e);
    s
}

/// `x` in backticks.
fn ticked_text(x: &str) -> (r: String)
    ensures
        r@ == tick(x@),
{
    proof {
        reveal_strlit("`");
    }
    cat3("`", x, "`")
}

/// Each case's name in backticks, separated by `, `.
fn ticked_of(cs: &Vec<(String, usize)>) -> (r: String)
    ensures
        r@ == ticked(names_view(cs@)),
{
    proof {
        reveal_strlit(", ");
    }
    let mut out: String = String::new();
    let n: usize = cs.len();
    let mut i: usize = 0;
    while i < n
        invariant
            n == cs@.len(),
            i <= n,
            out@ == ticked(names_view(cs@.subrange(0, i as int))),
        decreases n - i,
    {
        let t: String = ticked_text(cs[i].0.as_str());
        let ghost prefix = names_view(cs@.subrange(0, i + 1));
        assert(prefix.drop_last() =~= names_view(cs@.subrange(0, i as int)));
        assert(prefix.last() == (cs@[i as int].0@, cs@[i as int].1));
        if i == 0 {
            assert(prefix.len() == 1);
            out = t;
        } else {
            out.append(", ");
            out.append(t.as_str());
        }
        i = i + 1;
    }
    assert(cs@.subrange(0, n as int) =~= cs@);
    out
}

/// The names, separated by "` or `".
fn or_list_of(ms: &Vec<String>) -> (r: String)
    ensures
        r@ == or_list(ms@.map_values(|m: String| m@)),
{
    proof {
        reveal_strlit("` or `");
    }
    let mut out: String = String::new();
    let n: usize = ms.len();
    let mut i: usize = 0;
    while i < n
        invariant
            n == ms@.len(),
            i <= n,
            out@ == or_list(ms@.subrange(0, i as int).map_values(|m: String| m@)),
        decreases n - i,
    {
        let ghost prefix = ms@.subrange(0, i + 1).map_values(|m: String| m@);
        assert(prefix.drop_last() =~= ms@.subrange(0, i as int).map_values(|m: String| m@));
        assert(prefix.last() == ms@[i as int]@);
        if i == 0 {
            assert(prefix.len() == 1);
            out = String::from_str(ms[i].as_str());
        } else {
            out.append("` or `");
            out.append(ms[i].as_str());
        }
        i = i + 1;
    }
    assert(ms@.subrange(0, n as int) =~= ms@);
    out
}

proof fn lemma_first_named_prefix(s: Seq<(Seq<char>, usize)>, i: int)
    requires
        0 < i <= s.len(),
        first_named(s.subrange(0, i - 1), s[i - 1].0) is None,
    ensures
        first_named(s, s[i - 1].0) == Some(s[i - 1].1),
    decreases s.len(),
{
    assert(s.subrange(0, i).drop_last() =~= s.subrange(0, i - 1));
    if i < s.len() {
        assert(s.drop_last().subrange(0, i - 1) =~= s.subrange(0, i - 1));
        lemma_first_named_prefix(s.drop_last(), i);
    } else {
        assert(s.subrange(0, i - 1) =~= s.drop_last());
    }
}

/// The value of the first entry named `x`.
fn first_named_of(s: &Vec<(String, usize)>, x: &str) -> (r: Option<usize>)
    ensures
        r == first_named(names_view(s@), x@),
{
    let ghost v = names_view(s@);
    let n: usize = s.len();
    let mut i: usize = 0;
    while i < n
        invariant
            n == s@.len(),
            v == names_view(s@),
            i <= n,
            first_named(v.subrange(0, i as int), x@) is None,
        decreases n - i,
    {
        proof {
            assert(v.subrange(0, i + 1).drop_last() =~= v.subrange(0, i as int));
            assert(v[i as int] == (s@[i as int].0@, s@[i as int].1));
        }
        if str_eq(s[i].0.as_str(), x) {
            proof {
                lemma_first_named_prefix(v, i + 1);
            }
            return Some(s[i].1);
        }
        i = i + 1;
    }
    assert(v.subrange(0, n as int) =~= v);
    None
}

/// The family a case belongs to when it is the language's own: `true` for
/// `Option`, `false` for `Result`.
fn family_of_case(case: &str) -> (r: Option<bool>)
    ensures
        r == match family_of(case@) {
            Some(f) => Some(f == "Option"@),
            None => None::<bool>,
        },
{
    proof {
        reveal_strlit("Some");
        reveal_strlit("None");
        reveal_strlit("Ok");
        reveal_strlit("Err");
        reveal_strlit("Option");
        reveal_strlit("Result");
        assert("Option"@[0] != "Result"@[0]);
    }
    if str_eq(case, "Some") || str_eq(case, "None") {
        Some(true)
    } else if str_eq(case, "Ok") || str_eq(case, "Err") {
        Some(false)
    } else {
        None
    }
}

/// A family: its name, its cases, and the declaration of a declared one.
pub open spec fn family_view(f: (String, Vec<(String, usize)>, Option<usize>)) -> (Seq<char>, Seq<(Seq<char>, usize)>, Option<usize>) {
    (f.0@, names_view(f.1@), f.2)
}

/// The language's own family: `Option` or `Result`.
fn builtin_family(option: bool) -> (r: (String, Vec<(String, usize)>, Option<usize>))
    ensures
        family_view(r) == builtin(if option { "Option"@ } else { "Result"@ }),
{
    proof {
        reveal_strlit("Some");
        reveal_strlit("None");
        reveal_strlit("Ok");
        reveal_strlit("Err");
        reveal_strlit("Option");
        reveal_strlit("Result");
        assert("Option"@[0] != "Result"@[0]);
    }
    if option {
        let r = (
            String::from_str("Option"),
            vec![(String::from_str("Some"), 1usize), (String::from_str("None"), 0usize)],
            None,
        );
        assert(names_view(r.1@) =~= seq![("Some"@, 1usize), ("None"@, 0usize)]);
        r
    } else {
        let r = (String::from_str("Result"), vec![(String::from_str("Ok"), 1usize), (String::from_str("Err"), 1usize)], None);
        assert(names_view(r.1@) =~= seq![("Ok"@, 1usize), ("Err"@, 1usize)]);
        r
    }
}

/// A copy of the cases.
fn copy_cases(cs: &Vec<(String, usize)>) -> (r: Vec<(String, usize)>)
    ensures
        names_view(r@) == names_view(cs@),
{
    let mut out: Vec<(String, usize)> = Vec::new();
    let n: usize = cs.len();
    let mut i: usize = 0;
    while i < n
        invariant
            n == cs@.len(),
            i <= n,
            names_view(out@) == names_view(cs@.subrange(0, i as int)),
        decreases n - i,
    {
        let ghost before = out@;
        let nm: String = String::from_str(cs[i].0.as_str());
        assert(nm@ == cs@[i as int].0@);
        out.push((nm, cs[i].1));
        assert(names_view(out@) =~= names_view(before).push((cs@[i as int].0@, cs@[i as int].1)));
        assert(cs@.subrange(0, i + 1) =~= cs@.subrange(0, i as int).push(cs@[i as int]));
        assert(names_view(out@) =~= names_view(cs@.subrange(0, i + 1)));
        i = i + 1;
    }
    assert(cs@.subrange(0, n as int) =~= cs@);
    out
}

/// Whether `x` is among `seen`.
fn seen_has(seen: &Vec<String>, x: &str) -> (r: bool)
    ensures
        r == seen@.map_values(|m: String| m@).contains(x@),
{
    let ghost v = seen@.map_values(|m: String| m@);
    let n: usize = seen.len();
    let mut i: usize = 0;
    while i < n
        invariant
            n == seen@.len(),
            v == seen@.map_values(|m: String| m@),
            i <= n,
            forall|k: int| 0 <= k < i ==> v[k] != x@,
        decreases n - i,
    {
        if str_eq(seen[i].as_str(), x) {
            assert(v[i as int] == x@);
            return true;
        }
        i = i + 1;
    }
    false
}

/// The cases not among `seen`, in order.
fn missing_of(cs: &Vec<(String, usize)>, seen: &Vec<String>) -> (r: Vec<String>)
    ensures
        r@.map_values(|m: String| m@) == missing(names_view(cs@), seen@.map_values(|m: String| m@)),
{
    let ghost sv = seen@.map_values(|m: String| m@);
    let mut out: Vec<String> = Vec::new();
    let n: usize = cs.len();
    let mut i: usize = 0;
    while i < n
        invariant
            n == cs@.len(),
            i <= n,
            sv == seen@.map_values(|m: String| m@),
            out@.map_values(|m: String| m@) == missing(names_view(cs@.subrange(0, i as int)), sv),
        decreases n - i,
    {
        let ghost prefix = names_view(cs@.subrange(0, i + 1));
        assert(prefix.drop_last() =~= names_view(cs@.subrange(0, i as int)));
        assert(prefix.last() == (cs@[i as int].0@, cs@[i as int].1));
        if !seen_has(seen, cs[i].0.as_str()) {
            out.push(String::from_str(cs[i].0.as_str()));
        }
        assert(out@.map_values(|m: String| m@) =~= missing(prefix, sv));
        i = i + 1;
    }
    assert(cs@.subrange(0, n as int) =~= cs@);
    out
}

// ---------------------------------------------------------------- reports, executed

/// A report of this rule, on `decl`.
fn report(
    code: Code,
    reason: &'static str,
    detector: Detector,
    message: String,
    at: Span,
    decl: &Decl,
    explanation: Option<&'static str>,
    repairs: Vec<String>,
) -> (d: Diagnostic)
    ensures
        diagnostic_view(d) == template_view(
            code_view(code),
            reason@,
            detector,
            message@,
            at,
            *decl,
            match explanation {
                Some(e) => Some(e@),
                None => None,
            },
            repairs@.map_values(|r: String| r@),
        ),
{
    proof {
        reveal_strlit(" renders this");
    }
    let ghost rv = repairs@.map_values(|r: String| r@);
    let mut fixes: Vec<Repair> = Vec::new();
    let n: usize = repairs.len();
    let mut i: usize = 0;
    while i < n
        invariant
            n == repairs@.len(),
            i <= n,
            fixes@.len() == i,
            forall|k: int|
                0 <= k < i ==> (#[trigger] fixes@[k]).description@ == repairs@[k]@ && fixes@[k].replacement is None,
        decreases n - i,
    {
        fixes.push(Repair { description: String::from_str(repairs[i].as_str()), replacement: None });
        i = i + 1;
    }
    let name: String = ticked_text(decl.name.as_str());
    let mut label: String = name;
    label.append(" renders this");
    let d = Diagnostic {
        code: code.id,
        invariant: code.invariant,
        reason,
        detector,
        severity: Severity::Error,
        message,
        primary_span: at,
        related: vec![Related { span: copy_span(&decl.span), label }],
        explanation: match explanation {
            Some(e) => Some(String::from_str(e)),
            None => None,
        },
        repairs: fixes,
    };
    proof {
        let v = diagnostic_view(d);
        assert(v.related =~= seq![(decl.span, tick(decl.name@) + " renders this"@)]);
        assert(v.repairs =~= rv.map_values(|r: Seq<char>| (r, None::<(Span, Seq<char>)>)));
    }
    d
}

/// A malformed-block report.
fn malformed_report(decl: &Decl, at: Span, message: String) -> (d: Diagnostic)
    ensures
        diagnostic_view(d) == malformed(*decl, at, message@),
{
    let code = crate::codes::malformed_template_block();
    let d = report(
        code,
        "malformed_template_block",
        Detector::DeclarationRule,
        message,
        at,
        decl,
        Some(MALFORMED_EXPLANATION),
        Vec::new(),
    );
    proof {
        let none: Seq<String> = Seq::empty();
        assert(none.map_values(|r: String| r@) =~= Seq::<Seq<char>>::empty());
    }
    d
}

fn push_report(out: &mut Vec<Diagnostic>, d: Diagnostic)
    ensures
        diagnostic_views(final(out)@) == diagnostic_views(old(out)@).push(diagnostic_view(d)),
{
    let ghost before = out@;
    out.push(d);
    assert(diagnostic_views(out@) =~= diagnostic_views(before).push(diagnostic_view(d)));
}

// ---------------------------------------------------------------- blocks, executed

/// The branch markers among `children`, in order.
fn branches_of(body: &Body, children: &Vec<usize>) -> (r: Vec<usize>)
    requires
        forall|k: int| 0 <= k < children@.len() ==> #[trigger] children@[k] < body.nodes@.len(),
    ensures
        r@ == branches(*body, children@),
        forall|k: int| 0 <= k < r@.len() ==> #[trigger] r@[k] < body.nodes@.len(),
{
    let mut out: Vec<usize> = Vec::new();
    let n: usize = children.len();
    let mut i: usize = 0;
    while i < n
        invariant
            n == children@.len(),
            i <= n,
            forall|k: int| 0 <= k < children@.len() ==> #[trigger] children@[k] < body.nodes@.len(),
            out@ == branches(*body, children@.subrange(0, i as int)),
            forall|k: int| 0 <= k < out@.len() ==> #[trigger] out@[k] < body.nodes@.len(),
        decreases n - i,
    {
        let c: usize = children[i];
        assert(children@.subrange(0, i + 1).drop_last() =~= children@.subrange(0, i as int));
        match &body.nodes[c].0 {
            Node::Branch { .. } => {
                out.push(c);
            },
            _ => {},
        }
        assert(out@ =~= branches(*body, children@.subrange(0, i + 1)));
        i = i + 1;
    }
    assert(children@.subrange(0, n as int) =~= children@);
    out
}

/// Whether something other than white-space text comes before the first
/// arm.
fn stray_before(body: &Body, children: &Vec<usize>) -> (r: bool)
    requires
        forall|k: int| 0 <= k < children@.len() ==> #[trigger] children@[k] < body.nodes@.len(),
    ensures
        r == stray_before_arms(*body, children@),
{
    let n: usize = children.len();
    let mut i: usize = 0;
    assert(children@.subrange(0, n as int) =~= children@);
    while i < n
        invariant
            n == children@.len(),
            i <= n,
            forall|k: int| 0 <= k < children@.len() ==> #[trigger] children@[k] < body.nodes@.len(),
            stray_before_arms(*body, children@) == stray_before_arms(*body, children@.subrange(i as int, n as int)),
        decreases n - i,
    {
        let ghost rest = children@.subrange(i as int, n as int);
        assert(rest[0] == children@[i as int]);
        assert(rest.drop_first() =~= children@.subrange(i + 1, n as int));
        match &body.nodes[children[i]].0 {
            Node::Branch { .. } => {
                return false;
            },
            Node::Text(t) => {
                let tt: String = trimmed(t.as_str());
                if tt.as_str().unicode_len() != 0 {
                    return true;
                }
            },
            _ => {
                return true;
            },
        }
        i = i + 1;
    }
    assert(children@.subrange(n as int, n as int).len() == 0);
    false
}

/// Whether node `n` is a child of a block of some template.
fn is_inside(body: &Body, n: usize) -> (r: bool)
    requires
        body.well_formed(),
    ensures
        r == inside(*body, n),
{
    let m: usize = body.exprs.len();
    let mut k: usize = 0;
    while k < m
        invariant
            m == body.exprs@.len(),
            k <= m,
            body.well_formed(),
            !in_templates(*body, n, k as int),
        decreases m - k,
    {
        match &body.exprs[k].0 {
            Expr::Template { nodes } => {
                assert(crate::hir::expr_refs_in_range(body.exprs@[k as int].0, body.exprs@.len() as int, body.nodes@.len() as int, body.nodes@));
                let tn: usize = nodes.len();
                let mut t: usize = 0;
                while t < tn
                    invariant
                        tn == nodes@.len(),
                        t <= tn,
                        forall|j: int| 0 <= j < nodes@.len() ==> #[trigger] nodes@[j] < body.nodes@.len(),
                        !in_blocks(*body, nodes@, n, t as int),
                        k < m,
                        m == body.exprs@.len(),
                        body.exprs@[k as int].0 == (Expr::Template { nodes: *nodes }),
                    decreases tn - t,
                {
                    let x: usize = nodes[t];
                    match &body.nodes[x].0 {
                        Node::Block { children, .. } => {
                            let cn: usize = children.len();
                            let mut c: usize = 0;
                            let mut found: bool = false;
                            while c < cn
                                invariant
                                    cn == children@.len(),
                                    c <= cn,
                                    found ==> children@.contains(n),
                                    !found ==> forall|cc: int| 0 <= cc < c ==> children@[cc] != n,
                                decreases cn - c,
                            {
                                if children[c] == n {
                                    found = true;
                                }
                                c = c + 1;
                            }
                            if found {
                                assert(in_blocks(*body, nodes@, n, t + 1));
                                proof {
                                    lemma_in_blocks_grows(*body, nodes@, n, t + 1, tn as int);
                                    assert(in_templates(*body, n, k + 1));
                                    lemma_in_templates_grows(*body, n, k + 1, m as int);
                                }
                                return true;
                            }
                            assert(!children@.contains(n));
                        },
                        _ => {},
                    }
                    t = t + 1;
                }
            },
            _ => {},
        }
        k = k + 1;
    }
    false
}

proof fn lemma_in_blocks_grows(body: Body, ns: Seq<usize>, n: usize, i: int, j: int)
    requires
        0 <= i <= j,
        in_blocks(body, ns, n, i),
    ensures
        in_blocks(body, ns, n, j),
    decreases j - i,
{
    if i < j {
        lemma_in_blocks_grows(body, ns, n, i, j - 1);
    }
}

proof fn lemma_in_templates_grows(body: Body, n: usize, i: int, j: int)
    requires
        0 <= i <= j,
        in_templates(body, n, i),
    ensures
        in_templates(body, n, j),
    decreases j - i,
{
    if i < j {
        lemma_in_templates_grows(body, n, i, j - 1);
    }
}

/// A case without its qualifier.
fn short_of(case: &str) -> (r: String)
    ensures
        r@ == short(case@),
{
    match last_dot_of(case) {
        Some(i) => {
            let len: usize = case.unicode_len();
            slice(case, i + 1, len)
        },
        None => String::from_str(case),
    }
}

/// A marker as written, trimmed.
fn marker_text(body: &Body, b: usize) -> (r: String)
    requires
        b < body.nodes@.len(),
    ensures
        r@ == marker_of(*body, b),
{
    match &body.nodes[b].0 {
        Node::Branch { marker, .. } => trimmed(marker.as_str()),
        _ => String::new(),
    }
}

/// One repair, as a list.
fn one_repair(r: String) -> (v: Vec<String>)
    ensures
        v@.map_values(|x: String| x@) == seq![r@],
{
    let v = vec![r];
    assert(v@.map_values(|x: String| x@) =~= seq![r@]);
    v
}

pub open spec fn family_views(f: Option<(String, Vec<(String, usize)>, Option<usize>)>) -> Option<(Seq<char>, Seq<(Seq<char>, usize)>, Option<usize>)> {
    match f {
        Some(x) => Some(family_view(x)),
        None => None,
    }
}

fn not_a_case_report(decl: &Decl, at: Span, why: &str, f: &(String, Vec<(String, usize)>, Option<usize>)) -> (d: Diagnostic)
    ensures
        diagnostic_view(d) == not_a_case_view(*decl, at, why@, family_view(*f)),
{
    let mut m: String = ticked_text(why);
    m.append(" is not a constructor of ");
    let t: String = ticked_text(f.0.as_str());
    m.append(t.as_str());
    let mut r: String = ticked_text(f.0.as_str());
    r.append("'s constructors are ");
    let cs: String = ticked_of(&f.1);
    r.append(cs.as_str());
    let code = crate::codes::pattern_constructor();
    report(code, "pattern_names_a_constructor_its_type_lacks", Detector::PatternMatrix, m, at, decl, None, one_repair(r))
}

fn arity_report(decl: &Decl, at: Span, case: &str, bound: usize, fields: usize) -> (d: Diagnostic)
    ensures
        diagnostic_view(d) == arity_view(*decl, at, case@, bound as nat, fields as nat),
{
    let mut m: String = ticked_text(case);
    m.append(" binds ");
    let b: String = decimal_text(bound);
    m.append(b.as_str());
    m.append(" field(s) but declares ");
    let f: String = decimal_text(fields);
    m.append(f.as_str());
    let mut r: String = String::from_str("bind each of ");
    let t: String = ticked_text(case);
    r.append(t.as_str());
    r.append("'s ");
    r.append(f.as_str());
    r.append(" field(s), or none");
    let code = crate::codes::constructor_arity();
    report(code, "constructor_pattern_arity_mismatch", Detector::PatternMatrix, m, at, decl, None, one_repair(r))
}

fn uncovered_report(decl: &Decl, at: Span, d: &str, ms: &Vec<String>) -> (r: Diagnostic)
    ensures
        diagnostic_view(r) == uncovered_view(*decl, at, d@, ms@.map_values(|m: String| m@)),
{
    let mut m: String = ticked_text(d);
    m.append(" does not cover ");
    let l: String = or_list_of(ms);
    let t: String = ticked_text(l.as_str());
    m.append(t.as_str());
    let mut repairs: Vec<String> = Vec::new();
    let n: usize = ms.len();
    let mut i: usize = 0;
    while i < n
        invariant
            n == ms@.len(),
            i <= n,
            repairs@.map_values(|x: String| x@) == ms@.subrange(0, i as int).map_values(|x: String| x@).map_values(
                |x: Seq<char>| "add a `{:"@ + x + "}` arm"@,
            ),
        decreases n - i,
    {
        let mut r: String = String::from_str("add a `{:");
        r.append(ms[i].as_str());
        r.append("}` arm");
        assert(ms@.subrange(0, i + 1) =~= ms@.subrange(0, i as int).push(ms@[i as int]));
        let ghost before = repairs@;
        repairs.push(r);
        assert(repairs@.map_values(|x: String| x@) =~= before.map_values(|x: String| x@).push(r@));
        assert(ms@.subrange(0, i + 1).map_values(|x: String| x@).map_values(|x: Seq<char>| "add a `{:"@ + x + "}` arm"@)
            =~= ms@.subrange(0, i as int).map_values(|x: String| x@).map_values(|x: Seq<char>| "add a `{:"@ + x + "}` arm"@).push(
            "add a `{:"@ + ms@[i as int]@ + "}` arm"@,
        ));
        assert(repairs@.map_values(|x: String| x@) =~= ms@.subrange(0, i + 1).map_values(|x: String| x@).map_values(
            |x: Seq<char>| "add a `{:"@ + x + "}` arm"@,
        ));
        i = i + 1;
    }
    assert(ms@.subrange(0, n as int) =~= ms@);
    let code = crate::codes::non_exhaustive_match();
    report(code, "non_exhaustive_match", Detector::PatternMatrix, m, at, decl, Some(EXHAUSTIVE_EXPLANATION), repairs)
}

/// One `{#match}` arm: its reports, and the family and the cases seen after
/// it.
fn arm_check(
    decl: &Decl,
    body: &Body,
    resolved: &Vec<(String, usize)>,
    b: usize,
    family: Option<(String, Vec<(String, usize)>, Option<usize>)>,
    seen: Vec<String>,
    out: &mut Vec<Diagnostic>,
) -> (r: (Option<(String, Vec<(String, usize)>, Option<usize>)>, Vec<String>))
    requires
        b < body.nodes@.len(),
    ensures
        ({
            let step = arm_step(*decl, *body, names_view(resolved@), b, family_views(family), seen@.map_values(|m: String| m@));
            &&& diagnostic_views(final(out)@) == diagnostic_views(old(out)@) + step.0
            &&& family_views(r.0) == step.1
            &&& r.1@.map_values(|m: String| m@) == step.2
        }),
{
    let ghost sv = seen@.map_values(|m: String| m@);
    let ghost start = diagnostic_views(out@);
    let at: Span = copy_span(&body.nodes[b].1);
    match &body.nodes[b].0 {
        Node::Branch { arm: Some(arm), .. } => {
            let s: String = short_of(arm.case.as_str());
            let fam_case: Option<bool> = family_of_case(s.as_str());
            let f: (String, Vec<(String, usize)>, Option<usize>) = match family {
                Some(f) => f,
                None => match fam_case {
                    Some(o) => builtin_family(o),
                    None => {
                        let mut m: String = ticked_text(s.as_str());
                        m.append(" is a declared type's case, and the subject's type is not known here");
                        push_report(out, malformed_report(decl, at, m));
                        proof {
                            assert(diagnostic_views(out@) =~= start + arm_step(*decl, *body, names_view(resolved@), b, None, sv).0);
                        }
                        return (None, seen);
                    },
                },
            };
            let qualifier_names_it: bool = match last_dot_of(arm.case.as_str()) {
                Some(i) => {
                    let q: String = slice(arm.case.as_str(), 0, i);
                    match (first_named_of(resolved, q.as_str()), f.2) {
                        (Some(d), Some(t)) => d == t,
                        _ => false,
                    }
                },
                None => true,
            };
            if !qualifier_names_it {
                push_report(out, not_a_case_report(decl, at, arm.case.as_str(), &f));
                proof {
                    assert(diagnostic_views(out@) =~= start + seq![not_a_case_view(*decl, at, arm.case@, family_view(f))]);
                }
                return (Some(f), seen);
            }
            match first_named_of(&f.1, s.as_str()) {
                None => {
                    push_report(out, not_a_case_report(decl, at, s.as_str(), &f));
                    proof {
                        assert(diagnostic_views(out@) =~= start + seq![not_a_case_view(*decl, at, s@, family_view(f))]);
                    }
                    (Some(f), seen)
                },
                Some(fields) => {
                    let n: usize = arm.bindings.len();
                    let ghost r1: Seq<DiagnosticView> = if n != 0 && n != fields {
                        seq![arity_view(*decl, at, s@, n as nat, fields as nat)]
                    } else {
                        seq![]
                    };
                    if n != 0 && n != fields {
                        push_report(out, arity_report(decl, copy_span(&at), s.as_str(), n, fields));
                    }
                    assert(diagnostic_views(out@) =~= start + r1);
                    let ghost mid = diagnostic_views(out@);
                    let ghost r2: Seq<DiagnosticView> = if f.2 is Some && family_of(s@) is Some {
                        seq![malformed(*decl, at, tick(s@) + " is a declared case named like the language's own, which a template cannot tell apart"@)]
                    } else {
                        seq![]
                    };
                    if f.2.is_some() && fam_case.is_some() {
                        let mut m: String = ticked_text(s.as_str());
                        m.append(" is a declared case named like the language's own, which a template cannot tell apart");
                        push_report(out, malformed_report(decl, copy_span(&at), m));
                    }
                    assert(diagnostic_views(out@) =~= mid + r2);
                    let ghost mid2 = diagnostic_views(out@);
                    let again: bool = seen_has(&seen, s.as_str());
                    if again {
                        let mut m: String = String::from_str("a second `{:");
                        m.append(s.as_str());
                        m.append("}` arm can never render");
                        push_report(out, malformed_report(decl, copy_span(&at), m));
                    }
                    let ghost r3: Seq<DiagnosticView> = if sv.contains(s@) {
                        seq![malformed(*decl, at, "a second `{:"@ + s@ + "}` arm can never render"@)]
                    } else {
                        seq![]
                    };
                    assert(diagnostic_views(out@) =~= mid2 + r3);
                    let mut seen = seen;
                    let ghost before_seen = seen@;
                    seen.push(s);
                    proof {
                        assert(seen@.map_values(|m: String| m@) =~= sv.push(short(arm.case@)));
                        assert(diagnostic_views(out@) =~= start + (r1 + r2 + r3));
                    }
                    (Some(f), seen)
                },
            }
        },
        _ => {
            let t: String = marker_text(body, b);
            let mut m: String = ticked_text(t.as_str());
            m.append(" is not an arm: a `{#match}` arm is a case, `{:Some(x)}`, `{:None}` or a declared case like `{:Circle(r)}`");
            push_report(out, malformed_report(decl, at, m));
            (family, seen)
        },
    }
}

/// The reports on a `{#match}` block.
fn match_check(
    decl: &Decl,
    body: &Body,
    types: &Vec<Option<SubjectType>>,
    resolved: &Vec<(String, usize)>,
    at: &Span,
    d: &str,
    children: &Vec<usize>,
    subject: &Option<usize>,
    out: &mut Vec<Diagnostic>,
)
    requires
        forall|k: int| 0 <= k < children@.len() ==> #[trigger] children@[k] < body.nodes@.len(),
        subject matches Some(s) ==> s < types@.len(),
    ensures
        diagnostic_views(final(out)@) == diagnostic_views(old(out)@) + match_reports(
            *decl,
            *body,
            types@,
            names_view(resolved@),
            *at,
            d@,
            children@,
            *subject,
        ),
{
    let ghost start = diagnostic_views(out@);
    let ghost rv = names_view(resolved@);
    if stray_before(body, children) {
        push_report(
            out,
            malformed_report(
                decl,
                copy_span(at),
                String::from_str("a `{#match}` holds only its arms: nothing may come before the first"),
            ),
        );
    }
    let ghost after_stray = diagnostic_views(out@);
    let none: Option<SubjectType> = None;
    let ty: &Option<SubjectType> = match subject {
        Some(s) => &types[*s],
        None => &none,
    };
    assert(*ty == subject_type(types@, *subject));
    if let Some(SubjectType::Other(t)) = ty {
        let mut m: String = String::from_str(
            "a `{#match}` takes an `Option`, a `Result` or a sum type apart, and its subject is ",
        );
        let tt: String = ticked_text(t.as_str());
        m.append(tt.as_str());
        push_report(out, malformed_report(decl, copy_span(at), m));
        assert(diagnostic_views(out@) =~= start + match_reports(*decl, *body, types@, rv, *at, d@, children@, *subject));
        return;
    }
    let bs: Vec<usize> = branches_of(body, children);
    let mut family: Option<(String, Vec<(String, usize)>, Option<usize>)> = match ty {
        Some(SubjectType::Option) => Some(builtin_family(true)),
        Some(SubjectType::Result) => Some(builtin_family(false)),
        Some(SubjectType::Declared { name, cases, def }) => Some((String::from_str(name.as_str()), copy_cases(cases), Some(*def))),
        _ => None,
    };
    let ghost init = subject_family(*ty);
    assert(family_views(family) == init);
    let mut seen: Vec<String> = Vec::new();
    let n: usize = bs.len();
    let mut k: usize = 0;
    while k < n
        invariant
            n == bs@.len(),
            k <= n,
            forall|j: int| 0 <= j < bs@.len() ==> #[trigger] bs@[j] < body.nodes@.len(),
            rv == names_view(resolved@),
            ({
                let a = arms(*decl, *body, rv, bs@, k as int, init);
                &&& diagnostic_views(out@) == after_stray + a.0
                &&& family_views(family) == a.1
                &&& seen@.map_values(|m: String| m@) == a.2
            }),
        decreases n - k,
    {
        let ghost before = diagnostic_views(out@);
        let r = arm_check(decl, body, resolved, bs[k], family, seen, out);
        family = r.0;
        seen = r.1;
        proof {
            assert(diagnostic_views(out@) =~= after_stray + arms(*decl, *body, rv, bs@, k + 1, init).0);
        }
        k = k + 1;
    }
    let ghost a = arms(*decl, *body, rv, bs@, n as int, init);
    match &family {
        Some(f) => {
            let ms: Vec<String> = missing_of(&f.1, &seen);
            if ms.len() != 0 {
                push_report(out, uncovered_report(decl, copy_span(at), d, &ms));
            }
        },
        None => {},
    }
    assert(diagnostic_views(out@) =~= start + match_reports(*decl, *body, types@, rv, *at, d@, children@, *subject));
}

/// The reports on an `{#if}` block's markers and subject.
fn if_check(
    decl: &Decl,
    body: &Body,
    types: &Vec<Option<SubjectType>>,
    at: &Span,
    bs: &Vec<usize>,
    subject: &Option<usize>,
    out: &mut Vec<Diagnostic>,
)
    requires
        forall|k: int| 0 <= k < bs@.len() ==> #[trigger] bs@[k] < body.nodes@.len(),
        subject matches Some(s) ==> s < types@.len() && s < body.exprs@.len(),
        types@.len() == body.exprs@.len(),
        body.field_bases_precede(),
    ensures
        diagnostic_views(final(out)@) == diagnostic_views(old(out)@) + if_reports(*decl, *body, bs@, bs@.len() as int)
            + match subject_type(types@, *subject) {
            Some(SubjectType::Option) | Some(SubjectType::Result) => seq![
                option_view(*decl, *at, path_spec(body.exprs@, subject.unwrap() as int)),
            ],
            _ => seq![],
        },
{
    proof {
        reveal_strlit("{:else}");
    }
    let ghost start = diagnostic_views(out@);
    let n: usize = bs.len();
    let mut k: usize = 0;
    while k < n
        invariant
            n == bs@.len(),
            k <= n,
            forall|j: int| 0 <= j < bs@.len() ==> #[trigger] bs@[j] < body.nodes@.len(),
            diagnostic_views(out@) == start + if_reports(*decl, *body, bs@, k as int),
        decreases n - k,
    {
        let b: usize = bs[k];
        let conditional: bool = match &body.nodes[b].0 {
            Node::Branch { condition, .. } => condition.is_some(),
            _ => false,
        };
        let marker: String = marker_text(body, b);
        let last: bool = k + 1 == n;
        if !(conditional || (str_eq(marker.as_str(), "{:else}") && last)) {
            let mut m: String = String::from_str("an `{#if}` takes `{:else if c}` markers and one `{:else}`, last; not ");
            let t: String = ticked_text(marker.as_str());
            m.append(t.as_str());
            m.append(" here");
            push_report(out, malformed_report(decl, copy_span(&body.nodes[b].1), m));
        }
        k = k + 1;
    }
    let ghost mid = diagnostic_views(out@);
    match subject {
        Some(s) => match &types[*s] {
            Some(SubjectType::Option) | Some(SubjectType::Result) => {
                let w: String = path_of(body, *s);
                let mut m: String = String::from_str("`{#if ");
                m.append(w.as_str());
                m.append("}` tests a value that may be absent; `{#match ");
                m.append(w.as_str());
                m.append("}` takes it apart");
                let mut r: String = String::from_str("write `{#match ");
                r.append(w.as_str());
                r.append("}{:Some(x)} .. {:None} .. {/match}`");
                let code = crate::codes::option_used_as_value();
                push_report(
                    out,
                    report(code, "optional_tested_by_if", Detector::PatternMatrix, m, copy_span(at), decl, None, one_repair(r)),
                );
            },
            _ => {},
        },
        None => {},
    }
    assert(diagnostic_views(out@) =~= mid + match subject_type(types@, *subject) {
        Some(SubjectType::Option) | Some(SubjectType::Result) => seq![
            option_view(*decl, *at, path_spec(body.exprs@, subject.unwrap() as int)),
        ],
        _ => seq![],
    });
}

/// The reports on the block at node `n`.
fn block_check(
    decl: &Decl,
    body: &Body,
    types: &Vec<Option<SubjectType>>,
    resolved: &Vec<(String, usize)>,
    n: usize,
    out: &mut Vec<Diagnostic>,
)
    requires
        n < body.nodes@.len(),
        body.well_formed(),
        body.field_bases_precede(),
        types@.len() == body.exprs@.len(),
        crate::hir::node_refs_in_range(body.nodes@[n as int].0, body.exprs@.len() as int),
    ensures
        diagnostic_views(final(out)@) == diagnostic_views(old(out)@) + block_reports(
            *decl,
            *body,
            types@,
            names_view(resolved@),
            n,
        ),
{
    proof {
        reveal_strlit("{/");
        reveal_strlit("{#");
    }
    let ghost start = diagnostic_views(out@);
    match &body.nodes[n].0 {
        Node::Block { directive, children, subject, close } => {
            assert(crate::hir::children_in_range(body.nodes@[n as int].0, body.nodes@.len() as int));
            let d: String = trimmed(directive.as_str());
            let at: Span = copy_span(&body.nodes[n].1);
            if starts_with(d.as_str(), "{/") {
                let mut m: String = ticked_text(d.as_str());
                m.append(" closes no block");
                push_report(out, malformed_report(decl, at, m));
                return;
            }
            let stripped: String = strip_all_of(d.as_str(), "{#");
            let name: String = word_of(stripped.as_str());
            let is_if: bool = str_eq(name.as_str(), "if");
            let is_each: bool = str_eq(name.as_str(), "each");
            let is_match: bool = str_eq(name.as_str(), "match");
            if !(is_if || is_each || is_match) {
                let mut m: String = ticked_text(d.as_str());
                m.append(" is not a template block: the blocks are `{#if}`, `{#each}` and `{#match}`");
                push_report(out, malformed_report(decl, at, m));
                return;
            }
            if close.unicode_len() == 0 {
                let mut m: String = String::from_str("`{#");
                m.append(name.as_str());
                m.append("}` is never closed");
                push_report(out, malformed_report(decl, copy_span(&at), m));
            } else {
                let c: String = closer_of(close.as_str());
                if !str_eq(c.as_str(), name.as_str()) {
                    let mut m: String = String::from_str("`{#");
                    m.append(name.as_str());
                    m.append("}` closes with ");
                    let tc: String = trimmed(close.as_str());
                    let t: String = ticked_text(tc.as_str());
                    m.append(t.as_str());
                    m.append(", not `{/");
                    m.append(name.as_str());
                    m.append("}`");
                    push_report(out, malformed_report(decl, copy_span(&at), m));
                }
            }
            let ghost mid = diagnostic_views(out@);
            assert(mid == start + closing_reports(*decl, at, name@, close@));
            let bs: Vec<usize> = branches_of(body, children);
            if is_each {
                if bs.len() > 0 {
                    let t: String = marker_text(body, bs[0]);
                    let mut m: String = String::from_str("`{#each}` takes no ");
                    let tt: String = ticked_text(t.as_str());
                    m.append(tt.as_str());
                    m.append("; `{#if xs}` around the list says what renders when it is empty");
                    push_report(out, malformed_report(decl, copy_span(&body.nodes[bs[0]].1), m));
                }
            } else if is_if {
                if_check(decl, body, types, &at, &bs, subject, out);
            } else {
                match_check(decl, body, types, resolved, &at, d.as_str(), children, subject, out);
            }
        },
        _ => {},
    }
}

/// **Each template block takes only the markers its kind allows, and every
/// marker stands inside a block.** `types` holds what inference knows of
/// each expression of the declaration's body, by its id; `resolved` the
/// type declarations the unit can name, by the name or path written. The
/// reports on each block come in document order, then one on each marker
/// no block holds.
pub fn template_blocks(
    hir: &Hir,
    decl: &Decl,
    types: &Vec<Option<SubjectType>>,
    resolved: &Vec<(String, usize)>,
    out: &mut Vec<Diagnostic>,
)
    requires
        decl.body matches Some(b) ==> {
            &&& b < hir.bodies@.len()
            &&& hir.bodies@[b as int].well_formed()
            &&& hir.bodies@[b as int].field_bases_precede()
            &&& types@.len() == hir.bodies@[b as int].exprs@.len()
        },
    ensures
        diagnostic_views(final(out)@) == diagnostic_views(old(out)@) + template_spec(
            *hir,
            *decl,
            types@,
            names_view(resolved@),
        ),
{
    let ghost start = diagnostic_views(out@);
    let ghost rv = names_view(resolved@);
    let b: usize = match decl.body {
        Some(b) => b,
        None => {
            assert(diagnostic_views(out@) =~= start + template_spec(*hir, *decl, types@, rv));
            return;
        },
    };
    let body: &Body = &hir.bodies[b];
    let m: usize = body.exprs.len();
    let mut k: usize = 0;
    while k < m
        invariant
            m == body.exprs@.len(),
            k <= m,
            *body == hir.bodies@[b as int],
            body.well_formed(),
            body.field_bases_precede(),
            types@.len() == body.exprs@.len(),
            rv == names_view(resolved@),
            diagnostic_views(out@) == start + blocks_upto(*decl, *body, types@, rv, k as int),
        decreases m - k,
    {
        let ghost before = diagnostic_views(out@);
        match &body.exprs[k].0 {
            Expr::Template { nodes } => {
                assert(crate::hir::expr_refs_in_range(body.exprs@[k as int].0, body.exprs@.len() as int, body.nodes@.len() as int, body.nodes@));
                let tn: usize = nodes.len();
                let mut t: usize = 0;
                while t < tn
                    invariant
                        tn == nodes@.len(),
                        t <= tn,
                        body.well_formed(),
                        body.field_bases_precede(),
                        types@.len() == body.exprs@.len(),
                        forall|j: int| 0 <= j < nodes@.len() ==> #[trigger] nodes@[j] < body.nodes@.len()
                            && crate::hir::node_refs_in_range(body.nodes@[nodes@[j] as int].0, body.exprs@.len() as int),
                        diagnostic_views(out@) == before + blocks_in(*decl, *body, types@, rv, nodes@, t as int),
                        rv == names_view(resolved@),
                    decreases tn - t,
                {
                    assert(crate::hir::node_refs_in_range(body.nodes@[nodes@[t as int] as int].0, body.exprs@.len() as int));
                    block_check(decl, body, types, resolved, nodes[t], out);
                    t = t + 1;
                }
            },
            _ => {},
        }
        assert(diagnostic_views(out@) =~= start + blocks_upto(*decl, *body, types@, rv, k + 1));
        k = k + 1;
    }
    let ghost after_blocks = diagnostic_views(out@);
    let mut k: usize = 0;
    while k < m
        invariant
            m == body.exprs@.len(),
            k <= m,
            *body == hir.bodies@[b as int],
            body.well_formed(),
            diagnostic_views(out@) == after_blocks + strays_upto(*decl, *body, k as int),
        decreases m - k,
    {
        let ghost before = diagnostic_views(out@);
        match &body.exprs[k].0 {
            Expr::Template { nodes } => {
                assert(crate::hir::expr_refs_in_range(body.exprs@[k as int].0, body.exprs@.len() as int, body.nodes@.len() as int, body.nodes@));
                let tn: usize = nodes.len();
                let mut t: usize = 0;
                while t < tn
                    invariant
                        tn == nodes@.len(),
                        t <= tn,
                        body.well_formed(),
                        forall|j: int| 0 <= j < nodes@.len() ==> #[trigger] nodes@[j] < body.nodes@.len(),
                        diagnostic_views(out@) == before + strays_in(*decl, *body, nodes@, t as int),
                    decreases tn - t,
                {
                    let x: usize = nodes[t];
                    let ghost b4 = diagnostic_views(out@);
                    match &body.nodes[x].0 {
                        Node::Branch { marker, .. } => {
                            if !is_inside(body, x) {
                                let mt: String = trimmed(marker.as_str());
                                let mut msg: String = ticked_text(mt.as_str());
                                msg.append(" stands outside any block");
                                push_report(out, malformed_report(decl, copy_span(&body.nodes[x].1), msg));
                            }
                        },
                        _ => {},
                    }
                    assert(diagnostic_views(out@) =~= b4 + stray_report(*decl, *body, x));
                    t = t + 1;
                }
            },
            _ => {},
        }
        assert(diagnostic_views(out@) =~= after_blocks + strays_upto(*decl, *body, k + 1));
        k = k + 1;
    }
    assert(diagnostic_views(out@) =~= start + template_spec(*hir, *decl, types@, rv));
}


/// **The language's own cases take the fields they carry**: on an `Option`
/// subject, `{:Some(x)}` binds one field and `{:None}` none; on a `Result`
/// subject, `{:Ok(v)}` and `{:Err(e)}` bind one each; an arm written so, or
/// binding nothing, the first of its case, draws no report, and the case
/// is seen.
pub proof fn a_builtin_case_binds_its_fields(
    decl: Decl,
    body: Body,
    resolved: Seq<(Seq<char>, usize)>,
    b: usize,
    ty: SubjectType,
    case: Seq<char>,
    fields: nat,
    seen: Seq<Seq<char>>,
)
    requires
        ({
            ||| ty is Option && case == "Some"@ && fields == 1
            ||| ty is Option && case == "None"@ && fields == 0
            ||| ty is Result && case == "Ok"@ && fields == 1
            ||| ty is Result && case == "Err"@ && fields == 1
        }),
        body.nodes@[b as int].0 matches Node::Branch { arm: Some(a), .. } && a.case@ == case && (
        a.bindings@.len() == 0 || a.bindings@.len() == fields),
        !seen.contains(case),
    ensures
        arm_step(decl, body, resolved, b, subject_family(Some(ty)), seen).0 == Seq::<DiagnosticView>::empty(),
        arm_step(decl, body, resolved, b, subject_family(Some(ty)), seen).2 == seen.push(case),
{
    reveal_strlit("Some");
    reveal_strlit("None");
    reveal_strlit("Ok");
    reveal_strlit("Err");
    reveal_strlit("Option");
    reveal_strlit("Result");
    assert("Some"@[0] != "None"@[0] && "Ok"@.len() != "Err"@.len() && "Option"@[0] != "Result"@[0]);
    assert("Some"@.len() == 4 && "None"@.len() == 4 && "Ok"@.len() == 2 && "Err"@.len() == 3);
    reveal_with_fuel(last_dot, 5);
    assert(last_dot("Some"@) is None && last_dot("None"@) is None && last_dot("Ok"@) is None && last_dot("Err"@) is None);
    assert(short(case) == case);
    let f = subject_family(Some(ty)).unwrap();
    assert(f.2 is None);
    reveal_with_fuel(first_named, 3);
    assert(first_named(f.1, case) == Some(fields as usize));
}

/// **A case the language's family lacks is no constructor of it**: on an
/// `Option` subject an arm naming neither `Some` nor `None`, and on a
/// `Result` subject one naming neither `Ok` nor `Err`, unqualified, draws
/// one `PW0306` report and is not counted as seen.
pub proof fn a_foreign_case_is_no_constructor(
    decl: Decl,
    body: Body,
    resolved: Seq<(Seq<char>, usize)>,
    b: usize,
    ty: SubjectType,
    case: Seq<char>,
    seen: Seq<Seq<char>>,
)
    requires
        ty is Option && case != "Some"@ && case != "None"@ || ty is Result && case != "Ok"@ && case != "Err"@,
        body.nodes@[b as int].0 matches Node::Branch { arm: Some(a), .. } && a.case@ == case,
        last_dot(case) is None,
    ensures
        arm_step(decl, body, resolved, b, subject_family(Some(ty)), seen).0.len() == 1,
        arm_step(decl, body, resolved, b, subject_family(Some(ty)), seen).0[0].code == "PW0306"@,
        arm_step(decl, body, resolved, b, subject_family(Some(ty)), seen).2 == seen,
{
    reveal_strlit("PW0306");
    reveal_strlit("Option");
    reveal_strlit("Result");
    assert("Option"@[0] != "Result"@[0]);
    reveal_with_fuel(first_named, 3);
    let f = subject_family(Some(ty)).unwrap();
    assert(short(case) == case);
    assert(f.1.len() == 2);
    assert(f.1.drop_last().len() == 1);
    assert(f.1.drop_last().drop_last().len() == 0);
    assert(f.1.drop_last().last() == f.1[0]);
    assert(f.1[0].0 != case && f.1[1].0 != case);
    assert(first_named(f.1.drop_last().drop_last(), case) is None);
    assert(first_named(f.1.drop_last(), case) is None);
    assert(first_named(f.1, case) is None);
}

} // verus!
