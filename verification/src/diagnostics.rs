//! The one diagnostic type every semantic detector produces.
//!
//! One public code per violated invariant, not per detector: the detector
//! and the sub-reason are metadata. Rendering belongs to callers.
use std::ops::Range;

use vstd::prelude::*;

use crate::codes::registry;
use crate::text::str_eq;

verus! {

/// A region of a source file, in bytes.
pub type Span = Range<usize>;

/// `Clone` for `std::ops::Range`, which the derived `Clone` of every type
/// holding a span calls. Nothing is claimed of the copy: no verified code
/// relies on it.
pub assume_specification<Idx: Clone>[ <Range<Idx> as Clone>::clone ](r: &Range<Idx>) -> Range<Idx>;

/// A copy of a span.
pub fn copy_span(s: &Span) -> (r: Span)
    ensures
        r == *s,
{
    s.start..s.end
}

#[derive(Debug, Clone, Copy, PartialEq, Eq, Structural)]
pub enum Severity {
    Error,
    Warning,
}

/// Which analysis found the defect. Metadata; never part of the public code.
#[derive(Debug, Clone, Copy, PartialEq, Eq, Structural)]
pub enum Detector {
    /// Read directly off a declaration header.
    DeclarationRule,
    /// The scope graph, from handle flow.
    ScopeGraph,
    /// The exhaustiveness checker's pattern matrix.
    PatternMatrix,
    /// Declared-versus-actual component imports.
    CapabilityAudit,
    /// The type-directed boundary decoder.
    AbiDecoder,
}

pub open spec fn detector_name(d: Detector) -> Seq<char> {
    match d {
        Detector::DeclarationRule => "declaration_rule"@,
        Detector::ScopeGraph => "scope_graph"@,
        Detector::PatternMatrix => "pattern_matrix"@,
        Detector::CapabilityAudit => "capability_audit"@,
        Detector::AbiDecoder => "abi_decoder"@,
    }
}

impl Detector {
    pub fn name(self) -> (r: &'static str)
        ensures
            r@ == detector_name(self),
    {
        match self {
            Detector::DeclarationRule => "declaration_rule",
            Detector::ScopeGraph => "scope_graph",
            Detector::PatternMatrix => "pattern_matrix",
            Detector::CapabilityAudit => "capability_audit",
            Detector::AbiDecoder => "abi_decoder",
        }
    }
}

/// A span other than the primary one that the reader needs in order to
/// understand the defect: where the value originated.
#[derive(Debug, Clone, PartialEq, Eq)]
pub struct Related {
    pub span: Span,
    pub label: String,
}

/// A concrete legal alternative. Every diagnostic should offer at least one.
#[derive(Debug, Clone, PartialEq, Eq)]
pub struct Repair {
    pub description: String,
    /// A machine-applicable edit, when one exists. `None` means the repair is
    /// advisory.
    pub replacement: Option<(Span, String)>,
}

#[derive(Debug, Clone, PartialEq, Eq)]
pub struct Diagnostic {
    /// Stable, public, identifies the **invariant**.
    pub code: &'static str,
    /// One sentence naming the invariant, in the developer's vocabulary.
    pub invariant: &'static str,
    /// Machine-readable sub-reason within the invariant.
    pub reason: &'static str,
    pub detector: Detector,
    pub severity: Severity,
    pub message: String,
    pub primary_span: Span,
    pub related: Vec<Related>,
    /// Why the rule exists, when that is not obvious from the message.
    pub explanation: Option<String>,
    pub repairs: Vec<Repair>,
}

/// A diagnostic, as text: what a reader is shown.
pub struct DiagnosticView {
    pub code: Seq<char>,
    pub invariant: Seq<char>,
    pub reason: Seq<char>,
    pub detector: Detector,
    pub severity: Severity,
    pub message: Seq<char>,
    pub primary_span: Span,
    /// Each related span, with its label.
    pub related: Seq<(Span, Seq<char>)>,
    pub explanation: Option<Seq<char>>,
    /// Each repair's description, and its edit where it has one.
    pub repairs: Seq<(Seq<char>, Option<(Span, Seq<char>)>)>,
}

pub open spec fn diagnostic_view(d: Diagnostic) -> DiagnosticView {
    DiagnosticView {
        code: d.code@,
        invariant: d.invariant@,
        reason: d.reason@,
        detector: d.detector,
        severity: d.severity,
        message: d.message@,
        primary_span: d.primary_span,
        related: d.related@.map_values(|r: Related| (r.span, r.label@)),
        explanation: match d.explanation {
            Some(e) => Some(e@),
            None => None,
        },
        repairs: d.repairs@.map_values(
            |r: Repair|
                (
                    r.description@,
                    match r.replacement {
                        Some((s, t)) => Some((s, t@)),
                        None => None,
                    },
                ),
        ),
    }
}

/// A list of diagnostics, as text.
pub open spec fn diagnostic_views(ds: Seq<Diagnostic>) -> Seq<DiagnosticView> {
    ds.map_values(|d: Diagnostic| diagnostic_view(d))
}

impl Diagnostic {
    pub fn error(
        code: &'static str,
        sentence: &'static str,
        detector: Detector,
        message: &str,
        primary_span: Span,
    ) -> (r: Diagnostic)
        ensures
            r.code == code,
            r.invariant == sentence,
            r.reason@ == Seq::<char>::empty(),
            r.detector == detector,
            r.severity == Severity::Error,
            r.message@ == message@,
            r.primary_span == primary_span,
            r.related@.len() == 0,
            r.explanation is None,
            r.repairs@.len() == 0,
    {
        proof {
            reveal_strlit("");
        }
        Diagnostic {
            code,
            invariant: sentence,
            reason: "",
            detector,
            severity: Severity::Error,
            message: String::from_str(message),
            primary_span,
            related: Vec::new(),
            explanation: None,
            repairs: Vec::new(),
        }
    }

    pub fn warning(
        code: &'static str,
        sentence: &'static str,
        detector: Detector,
        message: &str,
        primary_span: Span,
    ) -> (r: Diagnostic)
        ensures
            r.code == code,
            r.invariant == sentence,
            r.reason@ == Seq::<char>::empty(),
            r.detector == detector,
            r.severity == Severity::Warning,
            r.message@ == message@,
            r.primary_span == primary_span,
            r.related@.len() == 0,
            r.explanation is None,
            r.repairs@.len() == 0,
    {
        let d = Diagnostic::error(code, sentence, detector, message, primary_span);
        Diagnostic { severity: Severity::Warning, ..d }
    }

    /// The same diagnostic, with its sub-reason.
    pub fn reason(self, r: &'static str) -> (out: Diagnostic)
        ensures
            out == (Diagnostic { reason: r, ..self }),
    {
        Diagnostic { reason: r, ..self }
    }

    /// The same diagnostic, with one more related span after the others.
    pub fn related(self, span: Span, label: &str) -> (out: Diagnostic)
        ensures
            out.code == self.code,
            out.invariant == self.invariant,
            out.reason == self.reason,
            out.detector == self.detector,
            out.severity == self.severity,
            out.message == self.message,
            out.primary_span == self.primary_span,
            out.explanation == self.explanation,
            out.repairs == self.repairs,
            out.related@.len() == self.related@.len() + 1,
            out.related@.subrange(0, self.related@.len() as int) == self.related@,
            out.related@.last().span == span,
            out.related@.last().label@ == label@,
    {
        let mut d = self;
        d.related.push(Related { span, label: String::from_str(label) });
        d
    }

    /// The same diagnostic, with why the rule exists.
    pub fn explain(self, e: &str) -> (out: Diagnostic)
        ensures
            out.code == self.code,
            out.invariant == self.invariant,
            out.reason == self.reason,
            out.detector == self.detector,
            out.severity == self.severity,
            out.message == self.message,
            out.primary_span == self.primary_span,
            out.related == self.related,
            out.repairs == self.repairs,
            out.explanation matches Some(x) && x@ == e@,
    {
        Diagnostic { explanation: Some(String::from_str(e)), ..self }
    }

    /// The same diagnostic, with one more advisory repair after the others.
    pub fn repair(self, description: &str) -> (out: Diagnostic)
        ensures
            out.code == self.code,
            out.invariant == self.invariant,
            out.reason == self.reason,
            out.detector == self.detector,
            out.severity == self.severity,
            out.message == self.message,
            out.primary_span == self.primary_span,
            out.related == self.related,
            out.explanation == self.explanation,
            out.repairs@.len() == self.repairs@.len() + 1,
            out.repairs@.subrange(0, self.repairs@.len() as int) == self.repairs@,
            out.repairs@.last().description@ == description@,
            out.repairs@.last().replacement is None,
    {
        let mut d = self;
        d.repairs.push(Repair { description: String::from_str(description), replacement: None });
        d
    }

    pub fn is_error(&self) -> (r: bool)
        ensures
            r == (self.severity == Severity::Error),
    {
        self.severity == Severity::Error
    }
}

/// Deprecated code aliases, kept only while the corpus migrates: each pair
/// is the alias as written in the corpus and the canonical invariant code.
pub open spec fn deprecated_aliases() -> Seq<(Seq<char>, Seq<char>)> {
    seq![("PW0326"@, "PW2004"@), ("PW0311"@, "PW2002"@)]
}

/// The alias table.
pub fn deprecated_aliases_table() -> (r: Vec<(&'static str, &'static str)>)
    ensures
        r@.len() == deprecated_aliases().len(),
        forall|i: int|
            0 <= i < r@.len() ==> (#[trigger] r@[i]).0@ == deprecated_aliases()[i].0 && r@[i].1@
                == deprecated_aliases()[i].1,
{
    // a resource cannot outlive the scope that owns it;
    // an ordinary task cannot be detached from its scope
    vec![("PW0326", "PW2004"), ("PW0311", "PW2002")]
}

/// What a declared code resolves to: the canonical code of the first alias
/// it spells, or itself.
pub open spec fn canonical_of(declared: Seq<char>) -> Seq<char> {
    if declared == deprecated_aliases()[0].0 {
        deprecated_aliases()[0].1
    } else if declared == deprecated_aliases()[1].0 {
        deprecated_aliases()[1].1
    } else {
        declared
    }
}

/// Resolve a corpus-declared code to the canonical invariant code.
pub fn canonical_code(declared: &str) -> (r: &str)
    ensures
        r@ == canonical_of(declared@),
{
    let table = deprecated_aliases_table();
    let n: usize = table.len();
    let mut i: usize = 0;
    while i < n
        invariant
            n == table@.len(),
            n == deprecated_aliases().len(),
            i <= n,
            forall|k: int|
                0 <= k < n ==> (#[trigger] table@[k]).0@ == deprecated_aliases()[k].0
                    && table@[k].1@ == deprecated_aliases()[k].1,
            forall|k: int| 0 <= k < i ==> declared@ != (#[trigger] deprecated_aliases()[k]).0,
        decreases n - i,
    {
        let (alias, canonical) = table[i];
        if str_eq(alias, declared) {
            return canonical;
        }
        i = i + 1;
    }
    declared
}

/// **Every alias resolves to a registered code, and no alias is itself
/// registered**: a corpus that names an old code reaches the rule that
/// replaced it, and never a different one.
pub proof fn every_alias_resolves_to_a_registered_code()
    ensures
        forall|i: int|
            0 <= i < deprecated_aliases().len() ==> exists|j: int|
                0 <= j < registry().len() && registry()[j].0 == #[trigger] deprecated_aliases()[i].1,
        forall|i: int, j: int|
            0 <= i < deprecated_aliases().len() && 0 <= j < registry().len() ==> #[trigger] registry()[j].0
                != #[trigger] deprecated_aliases()[i].0,
{
    reveal_strlit("PW0001");
    reveal_strlit("PW0002");
    reveal_strlit("PW0003");
    reveal_strlit("PW0004");
    reveal_strlit("PW0005");
    reveal_strlit("PW0006");
    reveal_strlit("PW0007");
    reveal_strlit("PW0008");
    reveal_strlit("PW0009");
    reveal_strlit("PW0010");
    reveal_strlit("PW0011");
    reveal_strlit("PW0012");
    reveal_strlit("PW0099");
    reveal_strlit("PW0312");
    reveal_strlit("PW0313");
    reveal_strlit("PW0323");
    reveal_strlit("PW0325");
    reveal_strlit("PW0327");
    reveal_strlit("PW0200");
    reveal_strlit("PW0305");
    reveal_strlit("PW2001");
    reveal_strlit("PW2002");
    reveal_strlit("PW2003");
    reveal_strlit("PW2004");
    reveal_strlit("PW5001");
    reveal_strlit("PW5002");
    reveal_strlit("PW5003");
    reveal_strlit("PW5004");
    reveal_strlit("PW5010");
    reveal_strlit("PW5015");
    reveal_strlit("PW5011");
    reveal_strlit("PW5012");
    reveal_strlit("PW5013");
    reveal_strlit("PW5014");
    reveal_strlit("PW5016");
    reveal_strlit("PW5017");
    reveal_strlit("PW0306");
    reveal_strlit("PW0307");
    reveal_strlit("PW0308");
    reveal_strlit("PW0326");
    reveal_strlit("PW0311");
    assert(registry()[23].0 == deprecated_aliases()[0].1);
    assert(registry()[21].0 == deprecated_aliases()[1].1);
    let r = registry();
    let a = deprecated_aliases();
    assert forall|i: int, j: int| 0 <= i < a.len() && 0 <= j < r.len() implies #[trigger] r[j].0 != #[trigger] a[i].0 by {
        if r[j].0 == a[i].0 {
            assert(r[j].0[3] == a[i].0[3]);
            assert(r[j].0[4] == a[i].0[4]);
            assert(r[j].0[5] == a[i].0[5]);
        }
    }
}

} // verus!
