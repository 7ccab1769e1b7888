use pw_core::boundary::{can_cross, Blocked, Boundary, BoundaryContext, Crossing, Direction, Schema, TransferProfile, TypeFacts, Violation};
use pw_core::hir::{Decl, DeclKind, Hir};
use pw_core::privacy::{Label, Restriction};
use pw_core::signatures::{Signature, Signatures};

fn named(ty: &str) -> TransferProfile {
    TransferProfile { schema: Schema::Named(ty.to_string()), resource: None, produced_scope: None }
}

fn ctx(boundary: Boundary, label: Label, destination: Option<Label>) -> BoundaryContext {
    BoundaryContext { boundary, direction: Direction::Outbound, label, destination }
}

#[test]
fn a_resource_cannot_cross_either_boundary() {
    let p = TransferProfile { resource: Some("db.begin".into()), ..named("OpenTransaction") };
    for boundary in [Boundary::Resume, Boundary::RemoteCall] {
        assert!(
            matches!(
                can_cross(&p, &ctx(boundary, Label::public(), Some(Label::public()))),
                Crossing::Violation(Violation::Resource { .. })
            ),
            "{boundary:?}"
        );
    }
}

#[test]
fn resume_session_a_into_session_a_is_allowed() {
    assert_eq!(
        can_cross(&named("Cart"), &ctx(Boundary::Resume, Label::session("SessionId"), Some(Label::session("SessionId")))),
        Crossing::Proven
    );
}

#[test]
fn resume_session_a_into_public_is_refused() {
    assert!(matches!(
        can_cross(&named("Cart"), &ctx(Boundary::Resume, Label::session("SessionId"), Some(Label::public()))),
        Crossing::Violation(Violation::Private { restriction: Restriction::Session(_) })
    ));
}

#[test]
fn remote_session_a_into_session_a_is_allowed() {
    assert_eq!(
        can_cross(&named("Cart"), &ctx(Boundary::RemoteCall, Label::session("SessionId"), Some(Label::session("SessionId")))),
        Crossing::Proven
    );
}

#[test]
fn remote_session_a_into_session_b_is_refused() {
    assert!(matches!(
        can_cross(&named("Cart"), &ctx(Boundary::RemoteCall, Label::session("A"), Some(Label::session("B")))),
        Crossing::Violation(Violation::Private { .. })
    ));
}

#[test]
fn public_flows_into_a_restricted_destination_at_both_boundaries() {
    for boundary in [Boundary::Resume, Boundary::RemoteCall] {
        assert_eq!(
            can_cross(&named("Store"), &ctx(boundary, Label::public(), Some(Label::session("SessionId")))),
            Crossing::Proven,
            "{boundary:?}"
        );
        assert_eq!(
            can_cross(&named("Store"), &ctx(boundary, Label::public(), Some(Label::public()))),
            Crossing::Proven,
            "{boundary:?}"
        );
    }
}

#[test]
fn an_unknown_destination_blocks_a_restricted_value_and_not_a_public_one() {
    let restricted = can_cross(&named("Cart"), &ctx(Boundary::RemoteCall, Label::session("SessionId"), None));
    assert!(matches!(restricted, Crossing::Blocked(Blocked::UnknownDestination { .. })), "{restricted:?}");
    assert_eq!(can_cross(&named("Store"), &ctx(Boundary::RemoteCall, Label::public(), None)), Crossing::Proven);
}

#[test]
fn a_scope_from_the_producer_counts_even_when_the_label_is_public() {
    let p = TransferProfile { produced_scope: Some(Restriction::Session("SessionId".into())), ..named("Cart") };
    assert!(matches!(
        can_cross(&p, &ctx(Boundary::Resume, Label::public(), Some(Label::public()))),
        Crossing::Violation(Violation::Private { .. })
    ));
    assert_eq!(
        can_cross(&named("Cart"), &ctx(Boundary::Resume, Label::public(), Some(Label::public()))),
        Crossing::Proven
    );
}

#[test]
fn the_label_and_the_producer_scope_are_joined_rather_than_chosen() {
    let p = TransferProfile { produced_scope: Some(Restriction::Session("SessionId".into())), ..named("Receipt") };
    let session_only = Label::session("SessionId");
    assert!(
        matches!(
            can_cross(&p, &ctx(Boundary::Resume, Label::secret("Payments"), Some(session_only))),
            Crossing::Violation(Violation::Private { restriction: Restriction::Secret(_) })
        ),
        "the secret is not carried by the destination"
    );
    let both = Label::secret("Payments").join(&Label::session("SessionId"));
    assert_eq!(can_cross(&p, &ctx(Boundary::Resume, Label::secret("Payments"), Some(both))), Crossing::Proven);
}

#[test]
fn an_undetermined_schema_is_blocked_and_not_permitted() {
    let p = TransferProfile { schema: Schema::Undetermined, resource: None, produced_scope: None };
    for boundary in [Boundary::Resume, Boundary::RemoteCall] {
        assert_eq!(
            can_cross(&p, &ctx(boundary, Label::public(), Some(Label::public()))),
            Crossing::Blocked(Blocked::UndeterminedSchema)
        );
    }
}

#[test]
fn a_resource_is_reported_as_a_resource_even_when_it_is_also_private() {
    let p = TransferProfile {
        resource: Some("db.begin".into()),
        produced_scope: Some(Restriction::Session("SessionId".into())),
        ..named("OpenTransaction")
    };
    assert!(matches!(
        can_cross(&p, &ctx(Boundary::Resume, Label::session("SessionId"), Some(Label::public()))),
        Crossing::Violation(Violation::Resource { .. })
    ));
}

fn decl(name: &str, kind: DeclKind, visibility: Option<&str>, ret: Option<&str>, ret_args: &[&str]) -> Decl {
    Decl {
        name: name.to_string(),
        kind,
        visibility: visibility.map(|s| s.to_string()),
        params: vec![],
        ret: ret.map(|s| s.to_string()),
        ret_args: ret_args.iter().map(|s| s.to_string()).collect(),
        variants: None,
        declared_effects: None,
        body: None,
        span: 0..0,
    }
}

fn sig(effects: &[&str]) -> Signature {
    Signature { params: vec![], returns: None, returns_args: vec![], effects: effects.iter().map(|s| s.to_string()).collect() }
}

fn facts() -> TypeFacts {
    let hir = Hir {
        module: Some("shop".to_string()),
        decls: vec![
            decl("Basket", DeclKind::Query, Some("session"), Some("Result"), &["Cart", "CartError"]),
            decl("Me", DeclKind::Query, Some("user"), Some("Profile"), &[]),
            decl("Orders", DeclKind::Query, Some("organization"), Some("List"), &["Order<Line>"]),
            decl("Menu", DeclKind::Query, Some("public"), Some("Menu"), &[]),
        ],
        bodies: vec![],
    };
    let sigs = Signatures {
        entries: vec![
            ("shop.begin".to_string(), sig(&["resource.acquire<OpenTransaction>", "database.write"])),
            ("shop.get".to_string(), sig(&["database.read<Stores>"])),
        ],
    };
    TypeFacts::build(&[&hir], &sigs)
}

#[test]
fn facts_come_from_declarations() {
    let f = facts();
    assert_eq!(f.resource_producer("OpenTransaction"), Some("shop.begin"));
    assert_eq!(f.resource_producer("Stores"), None);
    assert_eq!(f.produced_scope("Cart"), Some(&Restriction::Session("SessionId".to_string())));
    assert_eq!(f.produced_scope("Profile"), Some(&Restriction::User("UserId".to_string())));
    assert_eq!(f.produced_scope("Order"), Some(&Restriction::Organization("OrganizationId".to_string())));
    assert_eq!(f.produced_scope("Menu"), None);
}

#[test]
fn a_profile_reads_every_nominal_component() {
    let f = facts();
    let p = f.profile(Some("List<OpenTransaction>"));
    assert_eq!(p.schema, Schema::Named("OpenTransaction".to_string()));
    assert_eq!(p.resource.as_deref(), Some("shop.begin"));
    let q = f.profile(Some("Map<String, List< Cart >>"));
    assert_eq!(q.schema, Schema::Named("Map".to_string()));
    assert_eq!(q.resource, None);
    assert_eq!(q.produced_scope, Some(Restriction::Session("SessionId".to_string())));
    let u = f.profile(None);
    assert_eq!(u.schema, Schema::Undetermined);
}

#[test]
fn a_later_acquisition_of_the_same_type_is_the_one_that_counts() {
    let hir = Hir { module: None, decls: vec![], bodies: vec![] };
    let sigs = Signatures {
        entries: vec![
            ("a.open".to_string(), sig(&["resource.acquire<H>"])),
            ("b.open".to_string(), sig(&["resource.acquire<H>", "resource.acquire<>", "resource.acquire<"])),
        ],
    };
    let f = TypeFacts::build(&[&hir], &sigs);
    assert_eq!(f.resource_producer("H"), Some("b.open"));
    assert_eq!(f.resource_producer(""), Some("b.open"));
}

#[test]
fn labels_join_and_flow() {
    let a = Label::session("A");
    let b = Label::secret("P");
    let ab = a.join(&b);
    assert!(a.flows_into(&ab));
    assert!(!ab.flows_into(&a));
    assert!(Label::public().flows_into(&a));
    assert!(Label::public().is_public());
    assert_eq!(ab.violations(&a), vec![Restriction::Secret("P".to_string())]);
    assert_eq!(ab.join(&ab).restrictions().len(), 2);
    assert_eq!(Restriction::Session("SessionId".to_string()).describe(), "Session<SessionId>");
    assert!(Label::user("u").flows_into(&Label::user("u").join(&Label::organization("o"))));
}
