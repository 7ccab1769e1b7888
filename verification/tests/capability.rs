use pw_core::capability::{audit, capability_argument_names, capability_arguments, render_undeclared_imports, CapabilityManifest, RuntimeProfile};
use pw_core::diagnostics::Diagnostic;
use pw_core::hir::{Decl, DeclKind, EffectRef, Hir};

/// The exact import list measured from the `no_std` guest.
fn minimal_actual() -> Vec<String> {
    vec!["perfect-web:store/stores@0.1.0".to_string()]
}

/// The exact import list measured from the `std` guest: 15 instances for a
/// world declaring one.
fn std_actual() -> Vec<String> {
    [
        "perfect-web:store/stores@0.1.0",
        "wasi:cli/environment@0.2.9",
        "wasi:cli/exit@0.2.9",
        "wasi:cli/stderr@0.2.9",
        "wasi:cli/stdin@0.2.9",
        "wasi:cli/stdout@0.2.9",
        "wasi:cli/terminal-input@0.2.9",
        "wasi:cli/terminal-output@0.2.9",
        "wasi:cli/terminal-stderr@0.2.9",
        "wasi:cli/terminal-stdin@0.2.9",
        "wasi:cli/terminal-stdout@0.2.9",
        "wasi:clocks/monotonic-clock@0.2.9",
        "wasi:io/error@0.2.9",
        "wasi:io/poll@0.2.9",
        "wasi:io/streams@0.2.9",
    ]
    .iter()
    .map(|s| s.to_string())
    .collect()
}

fn manifest(profile: RuntimeProfile) -> CapabilityManifest {
    CapabilityManifest {
        component: "public-store-query".to_string(),
        declared: vec!["perfect-web:store/stores".to_string()],
        profile,
    }
}

#[test]
fn the_minimal_guest_is_compliant() {
    let a = audit(&manifest(RuntimeProfile::Minimal), &minimal_actual());
    assert!(a.is_compliant());
    assert_eq!(a.satisfied.len(), 1);
    assert!(a.undeclared.is_empty());
    assert!(render_undeclared_imports(&a).is_none());
}

#[test]
fn the_std_guest_fails_the_minimal_profile_with_all_fourteen_extras() {
    let a = audit(&manifest(RuntimeProfile::Minimal), &std_actual());
    assert!(!a.is_compliant());
    assert_eq!(a.undeclared.len(), 14, "E0 measured 15 imports for a one-capability world");
    let text = render_undeclared_imports(&a).unwrap();
    assert!(text.contains("PW4007"), "{text}");
    assert!(text.contains("wasi:cli/environment"), "{text}");
    assert!(text.contains("wasi:io/streams"), "{text}");
    assert!(text.contains("requested authority surface"), "{text}");
    assert!(text.contains("not authority already held"), "{text}");
}

#[test]
fn the_wasi_cli_profile_tolerates_them_but_only_when_chosen_explicitly() {
    let a = audit(&manifest(RuntimeProfile::WasiCli), &std_actual());
    assert!(a.is_compliant());
    assert_eq!(a.allowed_by_profile.len(), 14);
    assert!(!a.allowed_by_profile.is_empty());
}

#[test]
fn an_import_outside_the_profile_allowance_still_fails() {
    let mut actual = std_actual();
    actual.push("wasi:sockets/tcp@0.2.9".to_string());
    let a = audit(&manifest(RuntimeProfile::WasiCli), &actual);
    assert!(!a.is_compliant(), "sockets are not in the wasi-cli allowance");
    assert_eq!(a.undeclared, vec!["wasi:sockets/tcp@0.2.9".to_string()]);
}

#[test]
fn a_declared_but_unimported_capability_is_reported_without_failing() {
    let m = CapabilityManifest {
        component: "public-store-query".to_string(),
        declared: vec!["perfect-web:store/stores".to_string(), "perfect-web:payments/secret".to_string()],
        profile: RuntimeProfile::Minimal,
    };
    let a = audit(&m, &minimal_actual());
    assert!(a.is_compliant(), "over-declaring is not a build failure");
    assert_eq!(a.unused, vec!["perfect-web:payments/secret".to_string()]);
}

#[test]
fn the_audit_can_go_red_and_green() {
    let m = manifest(RuntimeProfile::Minimal);
    assert!(audit(&m, &minimal_actual()).is_compliant());
    assert!(!audit(&m, &std_actual()).is_compliant());
}

#[test]
fn a_secret_capability_leaking_into_an_edge_component_is_caught() {
    let m = CapabilityManifest {
        component: "public-edge-renderer".to_string(),
        declared: vec!["perfect-web:store/stores".to_string()],
        profile: RuntimeProfile::Minimal,
    };
    let actual = vec!["perfect-web:store/stores@0.1.0".to_string(), "perfect-web:payments/secret@0.1.0".to_string()];
    let a = audit(&m, &actual);
    assert!(!a.is_compliant());
    assert_eq!(a.undeclared, vec!["perfect-web:payments/secret@0.1.0".to_string()]);
}

#[test]
fn the_audit_lists_are_sorted() {
    let m = manifest(RuntimeProfile::WasiCli);
    let actual = vec![
        "wasi:io/poll@0.2.9".to_string(),
        "zeta:x/y".to_string(),
        "wasi:cli/exit@0.2.9".to_string(),
        "alpha:x/y".to_string(),
    ];
    let a = audit(&m, &actual);
    assert_eq!(a.allowed_by_profile, vec!["wasi:cli/exit@0.2.9".to_string(), "wasi:io/poll@0.2.9".to_string()]);
    assert_eq!(a.undeclared, vec!["alpha:x/y".to_string(), "zeta:x/y".to_string()]);
    assert_eq!(a.component, "public-store-query");
    assert_eq!(a.profile, RuntimeProfile::WasiCli);
    assert_eq!(a.unused, vec!["perfect-web:store/stores".to_string()]);
}

#[test]
fn the_rendered_text_is_exact() {
    let m = CapabilityManifest {
        component: "c".to_string(),
        declared: vec![],
        profile: RuntimeProfile::Minimal,
    };
    let a = audit(&m, &["x:y/z".to_string()]);
    let text = render_undeclared_imports(&a).unwrap();
    let want = "error: [PW4007] undeclared component import\n\n\
Component `c` declared:\n  (none)\n\n\
The compiled artifact additionally imports:\n  - x:y/z\n\n\
note: runtime profile is `minimal`\n\
note: these imports are a requested authority surface, not authority already held \u{2014}\n      \
the host still decides what to link. But a declared world that does not describe\n      \
what the artifact requests cannot be used as evidence of anything.\n\
help: use the generated minimal runtime, declare the capabilities explicitly, or\n      \
set `runtime_profile wasi-cli` for this component and accept the larger surface\n";
    assert_eq!(text, want);
}

#[test]
fn profile_names() {
    assert_eq!(RuntimeProfile::Minimal.name(), "minimal");
    assert_eq!(RuntimeProfile::WasiCli.name(), "wasi-cli");
}

fn decl(name: &str, kind: DeclKind) -> Decl {
    Decl {
        name: name.to_string(),
        kind,
        visibility: None,
        params: vec![],
        ret: None,
        ret_args: vec![],
        variants: None,
        declared_effects: None,
        body: None,
        span: 0..0,
    }
}

#[test]
fn a_module_and_its_types_are_what_an_argument_may_name() {
    let h = Hir {
        module: Some("Stores".to_string()),
        decls: vec![decl("Store", DeclKind::Type), decl("get", DeclKind::Fn), decl("StoreId", DeclKind::Opaque)],
        bodies: vec![],
    };
    let empty = Hir { module: Some("Nothing".to_string()), decls: vec![], bodies: vec![] };
    let names = capability_argument_names(&[&h, &empty]);
    assert_eq!(names.len(), 3);
    assert_eq!(names.get(0), "Store");
    assert_eq!(names.get(1), "StoreId");
    assert_eq!(names.get(2), "Stores");
    assert!(!names.contains("get"));
    assert!(!names.contains("Nothing"));
}

#[test]
fn a_misspelled_argument_is_reported_with_the_nearest_name() {
    let h = Hir { module: Some("Stores".to_string()), decls: vec![decl("Store", DeclKind::Type)], bodies: vec![] };
    let known = capability_argument_names(&[&h]);
    let mut d = decl("read", DeclKind::Query);
    d.declared_effects = Some(vec![
        EffectRef { written: "database.read<Stroes>".to_string(), path: "database.read".to_string(), span: 5..26 },
        EffectRef { written: "database.read<Stores>".to_string(), path: "database.read".to_string(), span: 30..51 },
        EffectRef { written: "database.read<Payments>".to_string(), path: "database.read".to_string(), span: 60..83 },
        EffectRef { written: "log".to_string(), path: "log".to_string(), span: 90..93 },
    ]);
    let mut out: Vec<Diagnostic> = Vec::new();
    capability_arguments(&h, &d, &known, &mut out);
    assert_eq!(out.len(), 2);
    assert_eq!(out[0].code, "PW5016");
    assert_eq!(out[0].message, "unknown capability type argument `Stroes`; did you mean `Stores`?");
    assert_eq!(out[0].primary_span, 5..26);
    assert_eq!(out[0].related[0].label, "`Stroes` names nothing this program declares; `Stores` does");
    assert_eq!(out[0].repairs[0].description, "did you mean `Stores`?");
    assert_eq!(out[1].message, "unknown capability type argument `Payments`");
    assert_eq!(out[1].repairs[0].description, "declare `Payments`, or import the module that does");
    assert!(out[1].explanation.as_deref().unwrap().contains("IDENTITY"));
}

#[test]
fn no_row_reports_nothing() {
    let h = Hir { module: None, decls: vec![], bodies: vec![] };
    let known = capability_argument_names(&[&h]);
    let mut out: Vec<Diagnostic> = Vec::new();
    capability_arguments(&h, &decl("q", DeclKind::Query), &known, &mut out);
    assert!(out.is_empty());
}
