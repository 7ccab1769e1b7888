use pw_core::binding::{binding_support, remote_support, BindingSupport, Interface, LocalSupport, RemoteSupport};
use pw_core::boundary::TypeFacts;
use pw_core::hir::{Decl, DeclKind, Hir, Param};
use pw_core::signatures::{Signature, Signatures};

// The program these tests read, as its declarations:
//
//     module shop
//
//     type Store = Store { id: Int, name: String }
//     type StoreError = StoreError { why: String }
//     opaque type StoreId = String
//     opaque type OpenTransaction = String
//     type Cart = Cart { line_count: Int }
//     type CartError = CartError { why: String }
//     opaque type SessionId = String
//
//     fn get(id: StoreId) -> Result<Store, StoreError> { todo }
//     fn begin() -> OpenTransaction !{ resource.acquire<OpenTransaction> } { todo }
//     fn commit(t: OpenTransaction) -> Result<Store, StoreError> { todo }
//     fn recover() -> Result<StoreId, OpenTransaction> { todo }
//     session query Basket(s: SessionId) -> Result<Cart, CartError> cache private { todo }
//     fn read_basket(s: SessionId) -> Result<Cart, CartError> { todo }
//     page Landing(id: StoreId) { placement origin view { <p>hello</p> } }

fn param(name: &str, ty: Option<&str>) -> Param {
    Param { name: name.to_string(), ty: ty.map(|s| s.to_string()), ty_args: vec![] }
}

fn decl(name: &str, kind: DeclKind, params: Vec<Param>, ret: Option<&str>, ret_args: &[&str]) -> Decl {
    Decl {
        name: name.to_string(),
        kind,
        visibility: None,
        params,
        ret: ret.map(|s| s.to_string()),
        ret_args: ret_args.iter().map(|s| s.to_string()).collect(),
        variants: None,
        declared_effects: None,
        body: None,
        span: 0..0,
    }
}

fn program() -> Hir {
    let mut basket = decl("Basket", DeclKind::Query, vec![param("s", Some("SessionId"))], Some("Result"), &["Cart", "CartError"]);
    basket.visibility = Some("session".to_string());
    Hir {
        module: Some("shop".to_string()),
        decls: vec![
            decl("Store", DeclKind::Type, vec![], None, &[]),
            decl("StoreError", DeclKind::Type, vec![], None, &[]),
            decl("StoreId", DeclKind::Opaque, vec![], None, &[]),
            decl("OpenTransaction", DeclKind::Opaque, vec![], None, &[]),
            decl("Cart", DeclKind::Type, vec![], None, &[]),
            decl("CartError", DeclKind::Type, vec![], None, &[]),
            decl("SessionId", DeclKind::Opaque, vec![], None, &[]),
            decl("get", DeclKind::Fn, vec![param("id", Some("StoreId"))], Some("Result"), &["Store", "StoreError"]),
            decl("begin", DeclKind::Fn, vec![], Some("OpenTransaction"), &[]),
            decl("commit", DeclKind::Fn, vec![param("t", Some("OpenTransaction"))], Some("Result"), &["Store", "StoreError"]),
            decl("recover", DeclKind::Fn, vec![], Some("Result"), &["StoreId", "OpenTransaction"]),
            basket,
            decl("read_basket", DeclKind::Fn, vec![param("s", Some("SessionId"))], Some("Result"), &["Cart", "CartError"]),
            decl("Landing", DeclKind::Page, vec![param("id", Some("StoreId"))], None, &[]),
        ],
        bodies: vec![],
    }
}

/// The signatures of the program's callables: only `begin` names an effect.
fn signatures(hir: &Hir) -> Signatures {
    let entries = hir
        .decls
        .iter()
        .filter(|d| matches!(d.kind, DeclKind::Fn | DeclKind::Query))
        .map(|d| {
            let effects = if d.name == "begin" { vec!["resource.acquire<OpenTransaction>".to_string()] } else { vec![] };
            (
                format!("shop.{}", d.name),
                Signature {
                    params: d.params.iter().map(|p| p.ty.clone()).collect(),
                    returns: d.ret.clone(),
                    returns_args: d.ret_args.clone(),
                    effects,
                },
            )
        })
        .collect();
    Signatures { entries }
}

fn support_in(hir: &Hir, sigs: &Signatures, name: &str) -> RemoteSupport {
    let facts = TypeFacts::build(&[hir], sigs);
    let decl = hir.decls.iter().find(|d| d.name == name).unwrap_or_else(|| panic!("no declaration named {name}"));
    remote_support(&Interface::of(decl), &facts)
}

fn support_of(name: &str) -> RemoteSupport {
    let hir = program();
    let sigs = signatures(&hir);
    support_in(&hir, &sigs, name)
}

#[test]
fn an_ordinary_query_is_remotable() {
    assert_eq!(support_of("get"), RemoteSupport::Transferable);
}

#[test]
fn a_resource_in_an_argument_refuses_the_edge() {
    let RemoteSupport::Refused { positions } = support_of("commit") else {
        panic!("{:?}", support_of("commit"));
    };
    assert_eq!(positions.len(), 1);
    assert_eq!(positions[0].position, "argument 0");
    assert_eq!(positions[0].ty.as_deref(), Some("OpenTransaction"));
}

#[test]
fn a_resource_in_a_result_refuses_it_too() {
    let RemoteSupport::Refused { positions } = support_of("begin") else {
        panic!("{:?}", support_of("begin"));
    };
    assert_eq!(positions[0].position, "result");
}

#[test]
fn the_error_side_is_a_position_of_its_own() {
    let RemoteSupport::Refused { positions } = support_of("recover") else {
        panic!("{:?}", support_of("recover"));
    };
    assert_eq!(positions.len(), 1);
    assert_eq!(positions[0].position, "error");
    assert_eq!(positions[0].ty.as_deref(), Some("OpenTransaction"));
}

#[test]
fn a_session_scoped_type_is_undetermined_rather_than_remotable() {
    let support = support_of("read_basket");
    let RemoteSupport::Undetermined { positions } = &support else {
        panic!("{support:?}");
    };
    assert_eq!(positions[0].position, "result");
    assert!(
        positions[0].reason.contains("Session"),
        "and it names the restriction it carries: {}",
        positions[0].reason
    );
}

#[test]
fn an_undetermined_position_is_neither_refused_nor_transferable() {
    // module m
    //
    // fn f(x) -> Int { 0 }
    let hir = Hir {
        module: Some("m".to_string()),
        decls: vec![decl("f", DeclKind::Fn, vec![param("x", None)], Some("Int"), &[])],
        bodies: vec![],
    };
    let sigs = signatures(&hir);
    assert!(matches!(support_in(&hir, &sigs, "f"), RemoteSupport::Undetermined { .. }));
}

#[test]
fn a_page_returns_nothing_and_that_is_not_undetermined() {
    assert_eq!(support_of("Landing"), RemoteSupport::Transferable);

    // module m
    //
    // opaque type T = String
    // fn f() -> T !{ resource.acquire<T> } { todo }
    // page P(t: T) { view { <p>x</p> } }
    let hir = Hir {
        module: Some("m".to_string()),
        decls: vec![
            decl("T", DeclKind::Opaque, vec![], None, &[]),
            decl("f", DeclKind::Fn, vec![], Some("T"), &[]),
            decl("P", DeclKind::Page, vec![param("t", Some("T"))], None, &[]),
        ],
        bodies: vec![],
    };
    let sigs = Signatures {
        entries: vec![(
            "m.f".to_string(),
            Signature { params: vec![], returns: Some("T".to_string()), returns_args: vec![], effects: vec!["resource.acquire<T>".to_string()] },
        )],
    };
    assert!(matches!(support_in(&hir, &sigs, "P"), RemoteSupport::Refused { .. }));
}

#[test]
fn local_is_always_direct_and_remote_is_not() {
    let hir = program();
    let sigs = signatures(&hir);
    let facts = TypeFacts::build(&[&hir], &sigs);
    let decl = hir.decls.iter().find(|d| d.name == "commit").expect("a declaration");
    let support = binding_support(decl, &facts);
    assert_eq!(support.local, LocalSupport::Direct);
    assert!(!support.remote.is_transferable());
}

#[test]
fn reasons_are_exact() {
    let RemoteSupport::Refused { positions } = support_of("commit") else { panic!() };
    assert_eq!(
        positions[0].reason,
        "`shop.begin` acquires it as a resource, so the value IS the thing held open and cannot be reconstructed elsewhere"
    );
    let RemoteSupport::Undetermined { positions } = support_of("read_basket") else { panic!() };
    assert_eq!(positions[0].ty.as_deref(), Some("Cart"));
    assert_eq!(
        positions[0].reason,
        "it carries Session<SessionId> and this build cannot establish the destination's privacy scope"
    );
}

#[test]
fn a_parameter_type_is_reassembled_with_its_arguments() {
    let mut d = decl("g", DeclKind::Fn, vec![param("xs", Some("List"))], None, &[]);
    d.params[0].ty_args = vec!["OpenTransaction".to_string(), "Int".to_string()];
    let i = Interface::of(&d);
    assert_eq!(i.params, vec![Some("List<OpenTransaction, Int>".to_string())]);
    let hir = program();
    let sigs = signatures(&hir);
    let facts = TypeFacts::build(&[&hir], &sigs);
    let RemoteSupport::Refused { positions } = remote_support(&i, &facts) else { panic!() };
    assert_eq!(positions[0].ty.as_deref(), Some("OpenTransaction"));
}

#[test]
fn many_arguments_are_numbered_in_decimal() {
    let params: Vec<Param> = (0..12).map(|k| param(&format!("p{k}"), None)).collect();
    let d = decl("wide", DeclKind::Fn, params, None, &[]);
    let hir = program();
    let sigs = signatures(&hir);
    let facts = TypeFacts::build(&[&hir], &sigs);
    let RemoteSupport::Undetermined { positions } = remote_support(&Interface::of(&d), &facts) else { panic!() };
    assert_eq!(positions.len(), 12);
    assert_eq!(positions[11].position, "argument 11");
    assert_eq!(positions[10].reason, "this build could not determine the type, so it has no wire schema");
}

#[test]
fn a_carrier_with_no_arguments_is_undetermined() {
    let d = decl("h", DeclKind::Fn, vec![], Some("Option"), &[]);
    let hir = program();
    let sigs = signatures(&hir);
    let facts = TypeFacts::build(&[&hir], &sigs);
    let RemoteSupport::Undetermined { positions } = remote_support(&Interface::of(&d), &facts) else { panic!() };
    assert_eq!(positions[0].position, "result");
    assert_eq!(positions[0].ty, None);
}

#[test]
fn an_old_contract_binds_either_way() {
    let b = BindingSupport::default();
    assert_eq!(b.local, LocalSupport::Direct);
    assert!(b.remote.is_transferable());
}

#[test]
fn an_interface_from_a_signature_keeps_its_positions() {
    let s = Signature {
        params: vec![Some("StoreId".to_string()), None],
        returns: Some("Result".to_string()),
        returns_args: vec!["Store".to_string()],
        effects: vec![],
    };
    let i = Interface::from_signature(&s);
    assert_eq!(i.params, s.params);
    assert_eq!(i.returns, s.returns);
    assert_eq!(i.returns_args, s.returns_args);
}
