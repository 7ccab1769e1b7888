use pw_core::diagnostics::{canonical_code, Detector, Diagnostic, Severity};

#[test]
fn an_alias_resolves_to_its_canonical_invariant() {
    assert_eq!(canonical_code("PW0326"), "PW2004");
    assert_eq!(canonical_code("PW0100"), "PW0100");
}

#[test]
fn one_invariant_can_be_reported_by_two_detectors_under_one_code() {
    // The developer learns one invariant; the detector and reason are metadata.
    let from_declaration = Diagnostic::error(
        "PW2004",
        "a resource cannot outlive the scope that owns it",
        Detector::DeclarationRule,
        "subscription `Tracking` declares `application` scope",
        0..10,
    )
    .reason("declared_scope_exceeds_owner");

    let from_graph = Diagnostic::error(
        "PW2004",
        "a resource cannot outlive the scope that owns it",
        Detector::ScopeGraph,
        "task handle `load_menu` escapes the component that owns it",
        20..30,
    )
    .reason("handle_escapes_to_ancestor");

    assert_eq!(from_declaration.code, from_graph.code);
    assert_eq!(from_declaration.invariant, from_graph.invariant);
    assert_ne!(from_declaration.detector, from_graph.detector);
    assert_ne!(from_declaration.reason, from_graph.reason);
}

#[test]
fn a_diagnostic_carries_the_charter_16_3_shape() {
    let d = Diagnostic::error(
        "PW0100",
        "a shared cache may contain only Public values",
        Detector::DeclarationRule,
        "msg",
        0..5,
    )
    .related(10..20, "declared `session` here")
    .explain("why")
    .repair("use `cache private`");
    assert!(!d.related.is_empty(), "origin span");
    assert!(d.explanation.is_some());
    assert!(!d.repairs.is_empty(), "at least one legal alternative");
}

#[test]
fn a_warning_differs_from_an_error_only_in_severity() {
    let w = Diagnostic::warning("PW0200", "a shared cache should declare how it is invalidated", Detector::DeclarationRule, "m", 3..4);
    assert_eq!(w.severity, Severity::Warning);
    assert!(!w.is_error());
    assert_eq!(w.message, "m");
    assert_eq!(w.primary_span, 3..4);
    assert_eq!(w.reason, "");
    let e = Diagnostic::error("PW0200", "a shared cache should declare how it is invalidated", Detector::DeclarationRule, "m", 3..4);
    assert!(e.is_error());
}

#[test]
fn builders_append_in_order() {
    let d = Diagnostic::error("PW5001", "x", Detector::ScopeGraph, "m", 0..1)
        .related(1..2, "first")
        .related(3..4, "second")
        .repair("one")
        .repair("two");
    assert_eq!(d.related.len(), 2);
    assert_eq!(d.related[0].label, "first");
    assert_eq!(d.related[1].span, 3..4);
    assert_eq!(d.repairs[1].description, "two");
    assert!(d.repairs[0].replacement.is_none());
}

#[test]
fn every_alias_and_a_non_alias_resolve() {
    assert_eq!(canonical_code("PW0311"), "PW2002");
    assert_eq!(canonical_code("PW2004"), "PW2004");
    assert_eq!(canonical_code(""), "");
}

#[test]
fn detector_names_are_stable() {
    assert_eq!(Detector::DeclarationRule.name(), "declaration_rule");
    assert_eq!(Detector::ScopeGraph.name(), "scope_graph");
    assert_eq!(Detector::PatternMatrix.name(), "pattern_matrix");
    assert_eq!(Detector::CapabilityAudit.name(), "capability_audit");
    assert_eq!(Detector::AbiDecoder.name(), "abi_decoder");
}
