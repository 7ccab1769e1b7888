use pw_core::codes::{all, lookup, unresolved_capability_argument, Owner};
use pw_core::diagnostics::{canonical_code, deprecated_aliases_table};

#[test]
fn every_code_is_unique() {
    let mut ids: Vec<&str> = all().iter().map(|c| c.id).collect();
    ids.sort_unstable();
    let before = ids.len();
    ids.dedup();
    assert_eq!(before, ids.len(), "a code is registered twice");
}

#[test]
fn every_code_sits_in_its_owner_range() {
    for c in all() {
        let want = c.owner.range();
        if want.is_empty() {
            assert!(!c.id.starts_with("PW00"), "{} is semantic but sits in the syntax range", c.id);
            continue;
        }
        assert!(c.id.starts_with(want), "{} is owned by {:?} and must start with {want}", c.id, c.owner);
    }
}

#[test]
fn every_alias_resolves_to_a_registered_code() {
    for (alias, canonical) in deprecated_aliases_table() {
        assert!(lookup(canonical).is_some(), "alias {alias} resolves to {canonical}, which is not registered");
        assert!(lookup(alias).is_none(), "{alias} is both an alias and a registered code");
        assert_eq!(canonical_code(alias), canonical);
    }
}

#[test]
fn an_invariant_reads_as_a_sentence_about_the_program() {
    for c in all() {
        assert!(!c.invariant.is_empty(), "{} has no invariant", c.id);
        for banned in ["checker", "pass", "analysis", "detector", "algorithm"] {
            assert!(
                !c.invariant.contains(banned),
                "{}'s invariant mentions the implementation: {:?}",
                c.id,
                c.invariant
            );
        }
    }
}

#[test]
fn lookup_finds_a_code_by_its_id() {
    let c = lookup("PW2004").expect("registered");
    assert_eq!(c.owner, Owner::ScopeGraph);
    assert_eq!(c.invariant, "a subscription cannot declare a scope that outlives its owner");
    assert!(lookup("PW9999").is_none());
    assert!(lookup("").is_none());
}

#[test]
fn owner_ranges() {
    assert_eq!(Owner::Syntax.range(), "PW00");
    assert_eq!(Owner::Privacy.range(), "PW50");
    assert_eq!(Owner::Placement.range(), "PW50");
    assert_eq!(Owner::Markup.range(), "PW50");
    assert_eq!(Owner::DeclarationRules.range(), "");
    assert_eq!(Owner::Exhaustiveness.range(), "");
}

#[test]
fn the_capability_argument_code_is_registered() {
    let c = unresolved_capability_argument();
    assert_eq!(lookup(c.id), Some(c));
    assert_eq!(c.owner, Owner::DeclarationRules);
}
