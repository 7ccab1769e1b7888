use pw_core::binding::BindingSupport;
use pw_core::contract::{component_kind, hash, interface_for, schema_of, Capability, EffectDeclaration, Export};
use pw_core::hir::DeclKind;

#[test]
fn only_what_a_host_runs_is_a_component() {
    assert_eq!(component_kind(DeclKind::Query), Some("query"));
    assert_eq!(component_kind(DeclKind::Command), Some("command"));
    assert_eq!(component_kind(DeclKind::Page), Some("page"));
    assert_eq!(component_kind(DeclKind::Component), Some("component"));
    for k in [DeclKind::Fn, DeclKind::Type, DeclKind::Opaque, DeclKind::View, DeclKind::Effect] {
        assert_eq!(component_kind(k), None, "{k:?}");
    }
}

#[test]
fn a_host_clause_names_the_interface_and_function() {
    let c = Capability::parse("secret<Payments>");
    let declared = EffectDeclaration { capability: Some("secret<T>".to_string()), host: Some("pw:host/secrets#get".to_string()) };
    assert_eq!(interface_for(&c, Some(&declared)), ("pw:host/secrets".to_string(), "get".to_string()));
    let whole = EffectDeclaration { capability: Some("secret<T>".to_string()), host: Some("pw:host/secrets".to_string()) };
    assert_eq!(interface_for(&c, Some(&whole)), ("pw:host/secrets".to_string(), "use".to_string()));
}

#[test]
fn without_a_host_clause_the_convention_applies() {
    let read = Capability::parse("database.read<Stores>");
    assert_eq!(interface_for(&read, None), ("pw:host/database".to_string(), "read".to_string()));
    let bare = Capability::parse("secret<Payments>");
    let no_host = EffectDeclaration { capability: Some("secret<T>".to_string()), host: None };
    assert_eq!(interface_for(&bare, Some(&no_host)), ("pw:host/secret".to_string(), "use".to_string()));
}

#[test]
fn the_hash_is_fnv_1a_in_sixteen_hex_digits() {
    assert_eq!(hash(""), "cbf29ce484222325");
    assert_eq!(hash("a"), "af63dc4c8601ec8c");
    assert_eq!(hash("foobar"), "85944171f73967e8");
    assert_eq!(hash("é"), "0ac21707b7181e01");
}

fn export(name: &str, kind: &str) -> Export {
    Export { name: name.to_string(), kind: kind.to_string(), binding: BindingSupport::default() }
}

#[test]
fn the_schema_hashes_the_interface_and_nothing_else() {
    let caps = vec![Capability::parse("database.read<Stores>")];
    let a = schema_of("shop.Menu", &[export("Menu", "query")], &caps, &["origin".to_string()]);
    assert_eq!(a, "8d5cb13d68705ec3");
    assert_eq!(schema_of("Landing", &[export("Landing", "page")], &[], &[]), "0832a2faf73cdf72");
    // A different placement is a different contract.
    assert_ne!(a, schema_of("shop.Menu", &[export("Menu", "query")], &caps, &["edge".to_string()]));
}

use pw_core::contract::{component_contract, Import, ImportKind};
use pw_core::ordered::NameSet;

fn import(interface: &str, name: &str, capability: &str, kind: ImportKind) -> Import {
    Import { interface: interface.to_string(), name: name.to_string(), capability: capability.to_string(), kind }
}

#[test]
fn a_component_contract_keeps_every_capability_but_an_unrestricted_one() {
    let restricted = EffectDeclaration { capability: Some("database.read<T>".to_string()), host: Some("pw:host/database#read".to_string()) };
    let free = EffectDeclaration { capability: None, host: None };
    let effects = vec![
        ("database.read<Stores>".to_string(), Some(restricted.clone())),
        ("layout.measure".to_string(), Some(free)),
        ("database.read<Stroes>".to_string(), Some(restricted.clone())),
        ("mystery.op".to_string(), None),
        ("database.read<Stores>".to_string(), Some(restricted.clone())),
    ];
    let mut types = NameSet::new();
    types.insert("Stores".to_string());
    let table = vec![("database.read<Stores>".to_string(), restricted)];
    let deps = vec![import("pw:app/shop.Store", "Store", "", ImportKind::Component)];
    let c = component_contract(
        "shop.Menu",
        "query",
        "Menu",
        &effects,
        &types,
        &table,
        vec!["origin".to_string()],
        &deps,
        BindingSupport::default(),
    );
    assert_eq!(c.component_id, "shop.Menu");
    assert_eq!(c.capability_mapping, 1);
    let names: Vec<String> = c.required_capabilities.iter().map(|x| x.name()).collect();
    assert_eq!(names, vec!["database.read<Stores>", "database.read<Stroes>", "mystery.op"]);
    assert_eq!(
        c.imports,
        vec![
            import("pw:app/shop.Store", "Store", "", ImportKind::Component),
            import("pw:host/database", "read", "database.read<Stores>", ImportKind::HostCapability),
            import("pw:host/database", "read", "database.read<Stroes>", ImportKind::HostCapability),
            import("pw:host/mystery", "op", "mystery.op", ImportKind::HostCapability),
        ]
    );
    assert_eq!(c.exports, vec![export("Menu", "query")]);
    assert_eq!(c.allowed_placements, vec!["origin".to_string()]);
    assert_eq!(c.abi_schema, "a778c74c5c49adbc");
}

#[test]
fn a_component_with_no_effects_needs_nothing_and_runs_nowhere_it_is_not_placed() {
    let c = component_contract("Landing", "page", "Landing", &[], &NameSet::new(), &[], vec![], &[], BindingSupport::default());
    assert!(c.required_capabilities.is_empty());
    assert!(c.imports.is_empty());
    assert!(c.allowed_placements.is_empty());
    assert_eq!(c.abi_schema, "0832a2faf73cdf72");
}
