use pw_core::check::{
    ambient_scope, block_scope, context_noun, declares_a_type, has_audit_record, kind_noun, label_of, name_pair,
    named_scope, path_of, permitted_children, sink_level, Env, MatchAnalysis, MatchOutcome, ScopeKind, Unit,
};
use pw_core::diag::MatchSite;
use pw_core::hir::{Body, Decl, DeclKind, EffectRef, Expr, Hir, Variant};
use pw_core::privacy::Label;
use pw_core::signatures::{Signature, Signatures};

fn decl(name: &str, kind: DeclKind) -> Decl {
    Decl {
        name: name.to_string(),
        kind,
        visibility: None,
        params: vec![],
        ret: None,
        ret_args: vec![],
        variants: None,
        declared_effects: None,
        body: None,
        span: 0..0,
    }
}

fn sum_type(name: &str, cases: &[&str]) -> Decl {
    let mut d = decl(name, DeclKind::Type);
    d.variants = Some(cases.iter().map(|c| Variant { name: c.to_string() }).collect());
    d
}

fn unit(path: &str, decls: Vec<Decl>) -> Unit {
    Unit {
        path: path.to_string(),
        src: String::new(),
        hir: Hir { module: None, decls, bodies: vec![] },
    }
}

#[test]
fn the_environment_knows_the_language_constructors_and_every_declared_case() {
    let units = vec![
        unit("a.pw", vec![sum_type("Shape", &["Circle", "Square"]), decl("f", DeclKind::Fn)]),
        unit("b.pw", vec![sum_type("Status", &["Open", "Circle"])]),
    ];
    let env = Env::build(&units);
    assert_eq!(env.constructors(), vec!["Circle", "Err", "None", "Ok", "Open", "Some", "Square"]);
    assert!(env.names_a_constructor("Square"));
    assert!(env.names_a_constructor("None"));
    assert!(!env.names_a_constructor("Shape"));
    assert!(!env.names_a_constructor("f"));
}

#[test]
fn an_empty_program_still_has_the_language_constructors() {
    let env = Env::build(&[]);
    assert_eq!(env.constructors(), vec!["Err", "None", "Ok", "Some"]);
}

#[test]
fn only_types_and_opaque_types_declare_a_type() {
    assert!(declares_a_type(DeclKind::Type));
    assert!(declares_a_type(DeclKind::Opaque));
    for k in [DeclKind::Fn, DeclKind::Query, DeclKind::Page, DeclKind::Component, DeclKind::Effect] {
        assert!(!declares_a_type(k), "{k:?}");
    }
}

#[test]
fn each_kind_has_its_ambient_scope_and_the_rest_the_narrowest() {
    assert_eq!(ambient_scope(&decl("V", DeclKind::View)), ScopeKind::Component);
    assert_eq!(ambient_scope(&decl("C", DeclKind::Component)), ScopeKind::Component);
    assert_eq!(ambient_scope(&decl("P", DeclKind::Page)), ScopeKind::Route);
    assert_eq!(ambient_scope(&decl("Q", DeclKind::Query)), ScopeKind::Request);
    assert_eq!(ambient_scope(&decl("K", DeclKind::Command)), ScopeKind::Request);
    assert_eq!(ambient_scope(&decl("S", DeclKind::Subscription)), ScopeKind::Session);
    assert_eq!(ambient_scope(&decl("f", DeclKind::Fn)), ScopeKind::Block);
    assert_eq!(ambient_scope(&decl("T", DeclKind::Task)), ScopeKind::Block);
}

#[test]
fn a_scope_clause_names_one_of_five_scopes() {
    assert_eq!(named_scope("application"), Some(ScopeKind::Application));
    assert_eq!(named_scope("session"), Some(ScopeKind::Session));
    assert_eq!(named_scope("route"), Some(ScopeKind::Route));
    assert_eq!(named_scope("request"), Some(ScopeKind::Request));
    assert_eq!(named_scope("component"), Some(ScopeKind::Component));
    assert_eq!(named_scope("block"), None);
    assert_eq!(named_scope("Session"), None);
}

#[test]
fn a_declaration_is_named_by_its_kind_or_as_a_painter() {
    assert_eq!(kind_noun(DeclKind::View), "view");
    assert_eq!(kind_noun(DeclKind::Command), "command");
    assert_eq!(kind_noun(DeclKind::Fn), "declaration");
    let mut painter = decl("Glow", DeclKind::Fn);
    painter.declared_effects = Some(vec![
        EffectRef { written: "dom.read".to_string(), path: "dom.read".to_string(), span: 0..8 },
        EffectRef { written: "paint.custom".to_string(), path: "paint.custom".to_string(), span: 10..22 },
    ]);
    assert_eq!(context_noun(&painter), "painter");
    assert_eq!(context_noun(&decl("Menu", DeclKind::Query)), "query");
}

#[test]
fn a_declaration_is_labelled_by_its_visibility() {
    let mut s = decl("Cart", DeclKind::Query);
    s.visibility = Some("session".to_string());
    assert!(!label_of(&s).is_public());
    assert!(label_of(&s).flows_into(&Label::session("SessionId")));
    assert!(!label_of(&s).flows_into(&Label::public()));
    let mut p = decl("Profile", DeclKind::Query);
    p.visibility = Some("private".to_string());
    assert!(label_of(&p).flows_into(&Label::user("UserId")));
    assert!(!label_of(&p).flows_into(&Label::session("SessionId")));
    assert!(label_of(&decl("Menu", DeclKind::Query)).is_public());
    let mut o = decl("Team", DeclKind::Query);
    o.visibility = Some("organization".to_string());
    assert!(label_of(&o).is_public());
}

fn name(n: &str, span: std::ops::Range<usize>) -> (Expr, std::ops::Range<usize>) {
    (Expr::Name(n.to_string()), span)
}

#[test]
fn a_keyword_and_its_value_are_read_as_a_pair() {
    // { cache scope private scope application }
    let body = Body {
        exprs: vec![
            (Expr::Block { stmts: vec![1, 2, 3, 4] }, 0..40),
            name("cache", 2..7),
            name("scope", 8..13),
            name("private", 14..21),
            name("scope", 22..27),
        ],
        nodes: vec![],
    };
    assert_eq!(name_pair(&body, 0, "cache"), Some(("scope".to_string(), 2..13)));
    assert_eq!(block_scope(&body, 0), Some(("private".to_string(), 8..21)));
    assert_eq!(name_pair(&body, 0, "partition"), None);
    // Not a block: nothing to read.
    assert_eq!(name_pair(&body, 1, "cache"), None);
}

#[test]
fn a_keyword_followed_by_something_else_is_skipped() {
    // { scope f() scope request }
    let body = Body {
        exprs: vec![
            (Expr::Block { stmts: vec![1, 3, 4, 5] }, 0..30),
            name("scope", 2..7),
            name("f", 8..9),
            (Expr::Call { callee: 2, args: vec![] }, 8..11),
            name("scope", 12..17),
            name("request", 18..25),
        ],
        nodes: vec![],
    };
    assert_eq!(block_scope(&body, 0), Some(("request".to_string(), 12..25)));
}

fn path_body() -> Body {
    // Analytics.record_view(x), task.spawn
    Body {
        exprs: vec![
            name("Analytics", 0..9),
            (Expr::Field { base: 0, name: "record_view".to_string() }, 0..21),
            (Expr::Call { callee: 1, args: vec![3] }, 0..24),
            name("x", 22..23),
            name("log", 30..33),
            (Expr::Field { base: 4, name: "public".to_string() }, 30..40),
            (Expr::Call { callee: 5, args: vec![3] }, 30..43),
            name("trace", 50..55),
        ],
        nodes: vec![],
    }
}

#[test]
fn a_callee_path_is_read_as_written() {
    let body = path_body();
    assert_eq!(path_of(&body, 1), "Analytics.record_view");
    assert_eq!(path_of(&body, 0), "Analytics");
    assert_eq!(path_of(&body, 2), "");
}

fn sig(effects: &[&str]) -> Signature {
    Signature {
        params: vec![None],
        returns: None,
        returns_args: vec![],
        effects: effects.iter().map(|e| e.to_string()).collect(),
    }
}

#[test]
fn a_sink_level_is_read_from_the_signature_not_the_name() {
    let body = path_body();
    let sigs = Signatures {
        entries: vec![
            ("log.public".to_string(), sig(&["io.write", "log<Public>"])),
            ("Analytics.record_view".to_string(), sig(&["analytics<>", "metrics<Session>"])),
            ("trace".to_string(), sig(&["trace<Secret>x"])),
        ],
    };
    assert_eq!(sink_level(&sigs, &body, 5), Some(("Public".to_string(), 30..40)));
    assert_eq!(sink_level(&sigs, &body, 1), Some(("Session".to_string(), 0..21)));
    // A row whose argument is not closed at its end declares no level.
    assert_eq!(sink_level(&sigs, &body, 7), None);
    // No signature at that path.
    assert_eq!(sink_level(&sigs, &body, 3), None);
    assert!(sigs.by_path("log.public").is_some());
    assert!(sigs.by_path("log").is_none());
}

#[test]
fn an_audit_record_is_an_unsafe_form_that_says_why() {
    let with = Body {
        exprs: vec![
            (Expr::Keyword { keyword: "unsafe.partial_match".to_string(), justification: Some("legacy".to_string()), attribution: None }, 0..10),
        ],
        nodes: vec![],
    };
    let without = Body {
        exprs: vec![
            (Expr::Keyword { keyword: "unsafe.partial_match".to_string(), justification: None, attribution: None }, 0..10),
            (Expr::Keyword { keyword: "query".to_string(), justification: Some("x".to_string()), attribution: None }, 11..20),
        ],
        nodes: vec![],
    };
    assert!(has_audit_record(&with));
    assert!(!has_audit_record(&without));
    assert!(!has_audit_record(&Body { exprs: vec![], nodes: vec![] }));
}

#[test]
fn html_constrains_the_children_of_lists_tables_and_selects() {
    assert_eq!(permitted_children("ul"), Some(vec!["li", "script", "template"]));
    assert_eq!(permitted_children("ol"), Some(vec!["li", "script", "template"]));
    assert_eq!(permitted_children("dl"), Some(vec!["dt", "dd", "div", "script", "template"]));
    assert_eq!(permitted_children("table"), Some(vec!["caption", "colgroup", "thead", "tbody", "tfoot", "tr"]));
    assert_eq!(permitted_children("tbody"), Some(vec!["tr"]));
    assert_eq!(permitted_children("tr"), Some(vec!["td", "th"]));
    assert_eq!(permitted_children("select"), Some(vec!["option", "optgroup"]));
    assert_eq!(permitted_children("div"), None);
}

#[test]
fn a_match_analysis_says_what_it_concluded_and_where() {
    let a = MatchAnalysis {
        declaration: "status_text".to_string(),
        scrutinee_type: Some("Status".to_string()),
        span: 10..80,
        outcome: MatchOutcome::NonExhaustive { missing: vec!["Cancelled".to_string()] },
        unreachable: vec![],
    };
    assert_ne!(a.outcome, MatchOutcome::Proven);
    assert_ne!(MatchOutcome::Blocked { reason: "no type".to_string() }, MatchOutcome::Proven);
    let site = MatchSite { source: "match s { }", path: "a.pw", span: 0..11, scrutinee_span: Some(6..7) };
    assert_eq!(site.scrutinee_span, Some(6..7));
}
