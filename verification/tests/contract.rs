use pw_core::contract::{audit, default_mapping, Audit, Capability, ComponentContract, EffectDeclaration, Import, ImportKind, NotACapability, CAPABILITY_MAPPING};
use pw_core::ordered::NameSet;

#[test]
fn a_capability_keeps_its_type_argument() {
    let a = Capability::parse("secret<Payments>");
    let b = Capability::parse("secret<Sessions>");
    assert_ne!(a, b);
    assert_eq!(a.family, "secret");
    assert_eq!(a.argument.as_deref(), Some("Payments"));
    assert_eq!(a.name(), "secret<Payments>");
}

#[test]
fn an_operation_is_part_of_the_identity() {
    assert_ne!(Capability::parse("database.read<Stores>"), Capability::parse("database.write<Stores>"));
}

#[test]
fn a_bare_family_parses() {
    let c = Capability::parse("secret");
    assert_eq!(c.family, "secret");
    assert!(c.operation.is_empty());
    assert_eq!(c.name(), "secret");
}

#[test]
fn parse_splits_at_the_first_dot_and_strips_every_closing_bracket() {
    let c = Capability::parse("database.read<Stores>>");
    assert_eq!(c.family, "database");
    assert_eq!(c.operation, "read");
    assert_eq!(c.argument.as_deref(), Some("Stores"));
    assert_eq!(c.name(), "database.read<Stores>");
    let d = Capability::parse("a.b.c");
    assert_eq!(d.family, "a");
    assert_eq!(d.operation, "b.c");
    assert_eq!(d.argument, None);
}

fn types(names: &[&str]) -> NameSet {
    let mut s = NameSet::new();
    for n in names {
        s.insert(n.to_string());
    }
    s
}

#[test]
fn resolving_an_effect_follows_its_declaration() {
    let known = types(&["Stores"]);
    let restricted = EffectDeclaration { capability: Some("database.read<T>".to_string()), host: None };
    let free = EffectDeclaration { capability: None, host: None };
    let c = Capability::resolve("database.read<Stores>", &known, Some(&restricted)).expect("a capability");
    assert_eq!(c.name(), "database.read<Stores>");
    assert_eq!(
        Capability::resolve("database.read<Stroes>", &known, Some(&restricted)),
        Err(NotACapability::UnknownArgument { family: "database".to_string(), argument: "Stroes".to_string() })
    );
    assert_eq!(
        Capability::resolve("layout.measure", &known, Some(&free)),
        Err(NotACapability::Unrestricted { family: "layout".to_string() })
    );
    assert_eq!(
        Capability::resolve("secret<Payments>", &known, None),
        Err(NotACapability::Undeclared { effect: "secret<Payments>".to_string() })
    );
}

fn contract(imports: Vec<Import>) -> ComponentContract {
    ComponentContract {
        component_id: "shop.Store".to_string(),
        capability_mapping: CAPABILITY_MAPPING,
        abi_schema: String::new(),
        required_capabilities: vec![],
        allowed_placements: vec![],
        imports,
        exports: vec![],
    }
}

fn host(interface: &str, name: &str) -> Import {
    Import { interface: interface.to_string(), name: name.to_string(), capability: String::new(), kind: ImportKind::HostCapability }
}

#[test]
fn the_audit_is_a_subset_rule() {
    let c = contract(vec![host("pw:host/database", "read")]);
    assert_eq!(c.imports[0].key(), "pw:host/database#read");
    assert!(audit(&c, &["pw:host/database#read".to_string()]).is_satisfied());
    assert!(audit(&c, &[]).is_satisfied(), "importing less than allowed is fine");
    let a = audit(
        &c,
        &[
            "pw:host/secrets#get".to_string(),
            "pw:host/database#read".to_string(),
            "pw:host/database#write".to_string(),
            "pw:host/secrets#get".to_string(),
        ],
    );
    assert_eq!(
        a,
        Audit::Undeclared(vec!["pw:host/database#write".to_string(), "pw:host/secrets#get".to_string()])
    );
    assert!(!a.is_satisfied());
}

#[test]
fn an_unparseable_import_is_undeclared() {
    let c = contract(vec![host("pw:host/database", "read")]);
    assert_eq!(audit(&c, &["???".to_string()]), Audit::Undeclared(vec!["???".to_string()]));
}

#[test]
fn an_old_contract_reads_as_the_current_mapping() {
    assert_eq!(default_mapping(), 1);
    assert_eq!(ImportKind::default(), ImportKind::HostCapability);
}
