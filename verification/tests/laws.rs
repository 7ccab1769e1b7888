use pw_core::boundary::{can_cross, Boundary, BoundaryContext, Crossing, Direction, Schema, TransferProfile, Violation};
use pw_core::capability::{audit, CapabilityManifest, RuntimeProfile};
use pw_core::contexts::{context_of, Context, Elsewhere};
use pw_core::contract::{self, Capability, ComponentContract, Import, ImportKind};
use pw_core::privacy::{Label, Restriction};

fn strings(xs: &[&str]) -> Vec<String> {
    xs.iter().map(|s| s.to_string()).collect()
}

fn requested() -> Vec<String> {
    strings(&["perfect-web:store/stores@0.1.0", "wasi:cli/exit@0.2.9", "wasi:io/poll@0.2.9", "wasi:sockets/tcp@0.2.9"])
}

fn manifest(declared: &[&str], profile: RuntimeProfile) -> CapabilityManifest {
    CapabilityManifest { component: "c".to_string(), declared: strings(declared), profile }
}

#[test]
fn every_requested_import_is_reported_exactly_once() {
    for profile in [RuntimeProfile::Minimal, RuntimeProfile::WasiCli] {
        let a = audit(&manifest(&["perfect-web:store/stores"], profile), &requested());
        assert_eq!(a.satisfied.len() + a.allowed_by_profile.len() + a.undeclared.len(), requested().len());
    }
}

#[test]
fn compliance_under_minimal_carries_over_to_wasi_cli() {
    let actual = strings(&["perfect-web:store/stores@0.1.0"]);
    assert!(audit(&manifest(&["perfect-web:store/stores"], RuntimeProfile::Minimal), &actual).is_compliant());
    assert!(audit(&manifest(&["perfect-web:store/stores"], RuntimeProfile::WasiCli), &actual).is_compliant());
    // And the converse does not hold: the WASI surface is tolerated only when chosen.
    let cli = strings(&["wasi:cli/exit@0.2.9"]);
    assert!(audit(&manifest(&[], RuntimeProfile::WasiCli), &cli).is_compliant());
    assert!(!audit(&manifest(&[], RuntimeProfile::Minimal), &cli).is_compliant());
}

#[test]
fn declaring_one_more_interface_keeps_a_compliant_audit_compliant() {
    let actual = strings(&["perfect-web:store/stores@0.1.0"]);
    let before = audit(&manifest(&["perfect-web:store/stores"], RuntimeProfile::Minimal), &actual);
    let after = audit(&manifest(&["perfect-web:store/stores", "perfect-web:mail/send"], RuntimeProfile::Minimal), &actual);
    assert!(before.is_compliant() && after.is_compliant());
    assert_eq!(after.unused, strings(&["perfect-web:mail/send"]));
}

fn import(interface: &str, name: &str) -> Import {
    Import { interface: interface.to_string(), name: name.to_string(), capability: String::new(), kind: ImportKind::HostCapability }
}

#[test]
fn the_contract_audit_reports_exactly_what_is_not_allowed() {
    let c = ComponentContract {
        component_id: "shop.Menu".to_string(),
        capability_mapping: 1,
        abi_schema: String::new(),
        required_capabilities: vec![],
        allowed_placements: vec![],
        imports: vec![import("pw:host/database", "read")],
        exports: vec![],
    };
    let actual = strings(&["pw:host/secrets#get", "pw:host/database#read", "pw:host/secrets#get", "pw:host/clock#now"]);
    assert_eq!(
        contract::audit(&c, &actual),
        contract::Audit::Undeclared(strings(&["pw:host/clock#now", "pw:host/secrets#get"]))
    );
    assert!(contract::audit(&c, &strings(&["pw:host/database#read"])).is_satisfied());
    assert!(contract::audit(&c, &[]).is_satisfied());
}

#[test]
fn a_capability_is_recovered_from_its_canonical_text() {
    for (family, operation, argument) in [
        ("database", "read", Some("Stores")),
        ("secret", "", Some("Payments")),
        ("dom", "mutate", None),
        ("log", "", None),
        ("cache", "a.b", Some("List<Item")),
    ] {
        let c = Capability { family: family.to_string(), operation: operation.to_string(), argument: argument.map(str::to_string) };
        assert_eq!(Capability::parse(&c.name()), c);
    }
    // An argument that ends in `>` is where the round trip stops.
    let nested = Capability { family: "cache".to_string(), operation: "read".to_string(), argument: Some("List<Item>".to_string()) };
    assert_ne!(Capability::parse(&nested.name()), nested);
}

#[test]
fn flows_are_reflexive_transitive_and_public_goes_anywhere() {
    let s = Label::session("A");
    let both = Label::session("A").join(&Label::secret("Payments"));
    assert!(Label::public().flows_into(&s));
    assert!(Label::public().flows_into(&Label::public()));
    assert!(s.flows_into(&s));
    assert!(s.flows_into(&both));
    assert!(!both.flows_into(&s));
    assert!(!s.flows_into(&Label::session("B")));
    let wider = both.join(&Label::user("U"));
    assert!(s.flows_into(&both) && both.flows_into(&wider) && s.flows_into(&wider));
}

#[test]
fn a_join_is_the_least_label_both_sides_flow_into() {
    let a = Label::session("A");
    let b = Label::secret("Payments");
    let j = a.join(&b);
    assert!(a.flows_into(&j) && b.flows_into(&j));
    let c = Label::secret("Payments").join(&Label::user("U")).join(&Label::session("A"));
    assert!(a.flows_into(&c) && b.flows_into(&c) && j.flows_into(&c));
    assert_eq!(a.join(&a).restrictions().len(), 1);
}

#[test]
fn a_failed_flow_lists_what_the_destination_lacks() {
    let v = Label::session("A").join(&Label::secret("Payments")).violations(&Label::session("A"));
    assert_eq!(v, vec![Restriction::Secret("Payments".to_string())]);
    assert!(Label::session("A").violations(&Label::session("A")).is_empty());
}

fn named(ty: &str) -> TransferProfile {
    TransferProfile { schema: Schema::Named(ty.to_string()), resource: None, produced_scope: None }
}

#[test]
fn both_boundaries_and_both_directions_decide_alike() {
    let p = TransferProfile { produced_scope: Some(Restriction::Session("A".to_string())), ..named("Cart") };
    let mut answers = Vec::new();
    for boundary in [Boundary::Resume, Boundary::RemoteCall] {
        for direction in [Direction::Inbound, Direction::Outbound] {
            for destination in [Some(Label::session("A")), Some(Label::session("B")), None] {
                let ctx = BoundaryContext { boundary, direction, label: Label::public(), destination };
                answers.push(can_cross(&p, &ctx));
            }
        }
    }
    for k in 0..3 {
        for other in [3 + k, 6 + k, 9 + k] {
            assert_eq!(answers[k], answers[other]);
        }
    }
    assert_eq!(answers[0], Crossing::Proven);
    assert_eq!(
        answers[1],
        Crossing::Violation(Violation::Private { restriction: Restriction::Session("A".to_string()) })
    );
}

#[test]
fn a_value_crosses_only_where_all_it_carries_is_held() {
    let p = TransferProfile { produced_scope: Some(Restriction::Session("A".to_string())), ..named("Cart") };
    let ctx = |destination| BoundaryContext {
        boundary: Boundary::Resume,
        direction: Direction::Outbound,
        label: Label::secret("Payments"),
        destination,
    };
    // The label's restriction and the producer's scope are both required.
    assert_eq!(can_cross(&p, &ctx(Some(Label::session("A").join(&Label::secret("Payments"))))), Crossing::Proven);
    assert_eq!(
        can_cross(&p, &ctx(Some(Label::secret("Payments")))),
        Crossing::Violation(Violation::Private { restriction: Restriction::Session("A".to_string()) })
    );
    assert_eq!(
        can_cross(&p, &ctx(Some(Label::session("A")))),
        Crossing::Violation(Violation::Private { restriction: Restriction::Secret("Payments".to_string()) })
    );
}

#[test]
fn the_narrowest_region_around_a_span_decides_its_context() {
    let regions = vec![
        Elsewhere { span: 0..100, context: Context::FramePhase },
        Elsewhere { span: 5..50, context: Context::StreamTask },
        Elsewhere { span: 10..20, context: Context::Interaction },
        Elsewhere { span: 60..70, context: Context::Query },
    ];
    assert_eq!(context_of(&regions, &(12..15)), Context::Interaction);
    assert_eq!(context_of(&regions, &(30..40)), Context::StreamTask);
    assert_eq!(context_of(&regions, &(55..58)), Context::FramePhase);
    assert_eq!(context_of(&regions, &(200..210)), Context::Render);
    assert_eq!(context_of(&regions, &(45..65)), Context::FramePhase);
}
