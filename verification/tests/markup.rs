use pw_core::check::markup_rules;
use pw_core::diagnostics::{Detector, Diagnostic, Severity};
use pw_core::hir::{Attr, AttrValue, Body, Decl, DeclKind, Expr, Hir, Node};

fn decl(name: &str, body: Option<usize>) -> Decl {
    Decl {
        name: name.to_string(),
        kind: DeclKind::Component,
        visibility: None,
        params: vec![],
        ret: None,
        ret_args: vec![],
        variants: None,
        declared_effects: None,
        body,
        span: 0..200,
    }
}

fn keyword(k: &str, why: Option<&str>, owner: Option<&str>) -> Expr {
    Expr::Keyword {
        keyword: k.to_string(),
        justification: why.map(str::to_string),
        attribution: owner.map(str::to_string),
    }
}

fn run(exprs: Vec<(Expr, std::ops::Range<usize>)>, nodes: Vec<(Node, std::ops::Range<usize>)>) -> Vec<Diagnostic> {
    let hir = Hir {
        module: None,
        decls: vec![decl("Panel", Some(0)), decl("Layout", None)],
        bodies: vec![Body { exprs, nodes }],
    };
    let mut out = Vec::new();
    markup_rules(&hir, &hir.decls[0], &mut out);
    out
}

fn attr(name: &str, value: AttrValue, span: std::ops::Range<usize>) -> Attr {
    Attr { name: name.to_string(), value, span }
}

fn element(tag: &str, attrs: Vec<Attr>, children: Vec<usize>) -> Node {
    Node::Element { tag: tag.to_string(), attrs, children }
}

#[test]
fn an_escape_hatch_without_its_record_is_refused() {
    let out = run(vec![(keyword("unsafe.imperative", None, None), 10..30)], vec![]);
    assert_eq!(out.len(), 1);
    let d = &out[0];
    assert_eq!(d.code, "PW5010");
    assert_eq!(d.invariant, "an unsafe escape hatch must carry a complete audit record");
    assert_eq!(d.reason, "unsafe_audit_incomplete");
    assert_eq!(d.detector, Detector::DeclarationRule);
    assert_eq!(d.severity, Severity::Error);
    assert_eq!(d.message, "`unsafe.imperative` requires a `because` justification and an attribution target");
    assert_eq!(d.primary_span, 10..30);
    assert_eq!(d.related[0].span, 0..200);
    assert_eq!(d.related[0].label, "`Panel` opens an escape hatch here");
    assert_eq!(d.repairs[0].description, "write `unsafe.imperative because \"\u{2026}\" attributes_forced_layout_to Owner`");
}

#[test]
fn each_missing_half_is_named() {
    let out = run(
        vec![
            (keyword("unsafe.a", Some("legacy"), None), 0..5),
            (keyword("unsafe.b", None, Some("Layout")), 6..9),
            (keyword("query", None, None), 10..12),
        ],
        vec![],
    );
    let messages: Vec<&str> = out.iter().map(|d| d.message.as_str()).collect();
    assert_eq!(messages, vec!["`unsafe.a` requires an attribution target", "`unsafe.b` requires a `because` justification"]);
}

#[test]
fn an_attribution_that_names_nothing_is_refused_even_with_a_reason() {
    let out = run(
        vec![
            (keyword("unsafe.imperative", Some("measured"), Some("Nobody")), 5..25),
            (keyword("unsafe.imperative", Some("measured"), Some("Layout")), 30..50),
            (keyword("unsafe.imperative", Some("measured"), Some("Panel")), 60..70),
        ],
        vec![],
    );
    assert_eq!(out.len(), 1);
    assert_eq!(out[0].code, "PW5015");
    assert_eq!(out[0].message, "`unsafe.imperative` is attributed to `Nobody`, which names no declaration");
    assert_eq!(out[0].related[0].label, "`Panel` opens the escape hatch here");
    assert_eq!(out[0].repairs[0].description, "name a declaration in this package, or an ADR");
}

#[test]
fn one_complete_record_covers_the_other_uses() {
    let out = run(
        vec![
            (keyword("unsafe.capability", Some("measured"), Some("Layout")), 0..10),
            (keyword("unsafe.imperative", None, None), 20..30),
        ],
        vec![],
    );
    assert!(out.is_empty());
}

#[test]
fn a_list_without_a_key_is_refused() {
    let out = run(
        vec![(Expr::Template { nodes: vec![0, 1] }, 0..100)],
        vec![
            (Node::Block { directive: "  {#each items as item}".to_string(), children: vec![], subject: None, close: "{/each}".to_string() }, 10..40),
            (Node::Block { directive: "{#each items as item (item.id)}".to_string(), children: vec![], subject: None, close: "{/each}".to_string() }, 50..80),
        ],
    );
    assert_eq!(out.len(), 1);
    assert_eq!(out[0].code, "PW5011");
    assert_eq!(out[0].message, "`#each` over a mutable collection requires a key expression");
    assert_eq!(out[0].primary_span, 10..40);
    assert_eq!(out[0].related[0].label, "`Panel` renders this list");
    assert_eq!(out[0].repairs[0].description, "add a key: `{#each items as item (item.id)}`");
}

#[test]
fn a_child_html_does_not_permit_is_refused() {
    let out = run(
        vec![(Expr::Template { nodes: vec![0, 1, 2] }, 0..100)],
        vec![
            (element("ul", vec![], vec![1, 2]), 0..60),
            (element("li", vec![], vec![]), 4..20),
            (element("div", vec![], vec![]), 20..40),
        ],
    );
    assert_eq!(out.len(), 1);
    let d = &out[0];
    assert_eq!(d.code, "PW5012");
    assert_eq!(d.message, "`<div>` is not permitted as a child of `<ul>`");
    assert_eq!(d.primary_span, 20..40);
    assert_eq!(d.related[0].span, 0..60);
    assert_eq!(d.related[0].label, "`<ul>` starts here");
    assert_eq!(
        d.explanation.as_deref(),
        Some("`<ul>` accepts only `<li>`, `<script>`, `<template>`. A browser silently reparses invalid nesting, so the DOM stops matching the source and every selector, test and assistive technology sees a different tree than the author wrote.")
    );
    assert_eq!(d.repairs[0].description, "wrap it in `<li>`, or move it outside `<ul>`");
}

#[test]
fn a_handler_on_an_inert_element_is_refused_unless_it_is_made_a_control() {
    let out = run(
        vec![(Expr::Template { nodes: vec![0, 1, 2] }, 0..100)],
        vec![
            (element("div", vec![attr("class", AttrValue::Static("x".to_string()), 5..10), attr("on:click", AttrValue::Expr(0), 11..20)], vec![]), 0..30),
            (element("button", vec![attr("on:click", AttrValue::Expr(0), 31..40)], vec![]), 30..50),
            (
                element(
                    "div",
                    vec![attr("on:click", AttrValue::Expr(0), 51..60), attr("role", AttrValue::Static("button".to_string()), 61..65), attr("tabindex", AttrValue::Static("0".to_string()), 66..70)],
                    vec![],
                ),
                50..80,
            ),
        ],
    );
    assert_eq!(out.len(), 1);
    let d = &out[0];
    assert_eq!(d.code, "PW5013");
    assert_eq!(d.message, "`<div>` with an `on:click` handler is not keyboard accessible");
    assert_eq!(d.primary_span, 11..20);
    assert_eq!(d.related[0].label, "`<div>` is not an interactive element");
    assert_eq!(d.repairs.len(), 2);
    assert_eq!(d.repairs[1].description, "or supply `role`, `tabindex` and keyboard activation");
}

#[test]
fn a_form_control_needs_something_that_names_it() {
    let out = run(
        vec![(Expr::Template { nodes: vec![0, 1, 2, 3, 4] }, 0..200)],
        vec![
            (element("input", vec![attr("name", AttrValue::Static("q".to_string()), 1..5)], vec![]), 0..10),
            (element("input", vec![attr("type", AttrValue::Static("\"hidden\"".to_string()), 11..20)], vec![]), 10..20),
            (element("select", vec![attr("aria-label", AttrValue::Static("Sort".to_string()), 21..30)], vec![]), 20..40),
            (element("textarea", vec![attr("type", AttrValue::Expr(0), 41..45)], vec![]), 40..50),
            (element("input", vec![attr("type", AttrValue::Static("submit".to_string()), 51..60)], vec![]), 50..60),
        ],
    );
    let spans: Vec<std::ops::Range<usize>> = out.iter().map(|d| d.primary_span.clone()).collect();
    assert_eq!(spans, vec![0..10, 40..50]);
    assert_eq!(out[0].code, "PW5014");
    assert_eq!(out[0].message, "`<input>` has no associated label");
    assert_eq!(out[1].message, "`<textarea>` has no associated label");
    assert_eq!(out[0].related[0].label, "`Panel` renders this control");
}

#[test]
fn a_declaration_without_a_body_reports_nothing() {
    let hir = Hir { module: None, decls: vec![decl("Layout", None)], bodies: vec![] };
    let mut out = Vec::new();
    markup_rules(&hir, &hir.decls[0], &mut out);
    assert!(out.is_empty());
}
