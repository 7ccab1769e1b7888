use pw_core::backend::wasm::{Case, CaseTable, Encoding, Helper, Helpers, Literals, Named, DATA_BASE, HEAP_BASE};

#[test]
fn an_encoding_is_encoded_or_says_why_not() {
    let e: Encoding<u32> = Encoding::Encoded(7);
    assert!(e.is_encoded());
    assert_eq!(e.clone().encoded(), Some(7));
    assert_eq!(e.describe(), "encoded");
    let u: Encoding<u32> = Encoding::Unsupported { construct: "Instr::Spawn", reason: "no tasks yet".to_string() };
    assert!(!u.is_encoded());
    assert_eq!(u.describe(), "`Instr::Spawn` does not encode: no tasks yet");
    assert_eq!(u.encoded(), None);
    let b: Encoding<u32> = Encoding::Blocked { why: "no world".to_string() };
    assert_eq!(b.describe(), "blocked upstream: no world");
}

#[test]
fn mapping_an_encoding_passes_a_refusal_through_unchanged() {
    let e: Encoding<u32> = Encoding::Encoded(20);
    assert_eq!(e.map(|x| x + 1), Encoding::Encoded(21));
    let u: Encoding<u32> = Encoding::Unsupported { construct: "x", reason: "y".to_string() };
    assert_eq!(u.map(|x| x + 1), Encoding::Unsupported { construct: "x", reason: "y".to_string() });
    let b: Encoding<u32> = Encoding::Blocked { why: "z".to_string() };
    assert_eq!(b.map(|x| x.to_string()), Encoding::Blocked { why: "z".to_string() });
}

#[test]
fn literals_are_laid_down_once_each_above_the_null_page() {
    let lits = Literals::of(&["hello".to_string(), "true".to_string(), "hello".to_string(), "é".to_string()]);
    assert_eq!(DATA_BASE, 16);
    assert_eq!(HEAP_BASE, 16);
    assert_eq!(lits.address("hello"), Some(16));
    assert_eq!(lits.address("true"), Some(21));
    assert_eq!(lits.address("é"), Some(25));
    assert_eq!(lits.address("false"), None);
    // 5 + 4 + 2 bytes end at 27; the region starts at the next multiple of 8.
    assert_eq!(lits.heap_base(), 32);
}

#[test]
fn with_no_literals_the_region_starts_where_it_always_did() {
    assert_eq!(Literals::new().heap_base(), 16);
    assert_eq!(Literals::of(&[]).heap_base(), 16);
    // Exactly 8 bytes end at 24, already aligned.
    assert_eq!(Literals::of(&["12345678".to_string()]).heap_base(), 24);
}

#[test]
fn adding_a_literal_twice_changes_nothing() {
    let mut lits = Literals::new();
    lits.add("a");
    lits.add("a");
    lits.add("b");
    assert_eq!(lits.address("a"), Some(16));
    assert_eq!(lits.address("b"), Some(17));
    assert_eq!(lits.heap_base(), 24);
}

#[test]
fn a_helper_keeps_the_index_it_was_first_given() {
    let mut h = Helpers { first: 3, used: vec![] };
    assert_eq!(h.index(Helper::StrEq), 3);
    assert_eq!(h.index(Helper::Trim), 4);
    assert_eq!(h.index(Helper::StrEq), 3);
    assert_eq!(h.index(Helper::CaseMap), 5);
    assert_eq!(h.index(Helper::Trim), 4);
    assert_eq!(h.used, vec![Helper::StrEq, Helper::Trim, Helper::CaseMap]);
}

#[test]
fn a_case_table_follows_the_literals_on_a_word_boundary() {
    let mut lits = Literals::of(&["abc".to_string()]);
    // 16 + 3 = 19: one zero brings the table to 20.
    let table: Vec<u8> = (0..48u8).collect();
    let r = lits.add_case_table(Case::Lower, &table, 2, 1);
    assert_eq!(r, (20, 2, 52, 1));
    assert_eq!(lits.table(Case::Lower), Some((20, 2, 52, 1)));
    assert_eq!(lits.table(Case::Upper), None);
    assert_eq!(lits.address("abc"), Some(16));
    // A second table for the same case is the first.
    assert_eq!(lits.add_case_table(Case::Lower, &[0u8; 16], 1, 0), (20, 2, 52, 1));
    // 20 + 48 = 68, already a word boundary.
    assert_eq!(lits.add_case_table(Case::Upper, &[7u8; 16], 0, 1), (68, 0, 68, 1));
    assert_eq!(lits.heap_base(), 88);
}

#[test]
fn a_body_lays_its_strings_then_the_tables_it_maps_with() {
    let lower = CaseTable { bytes: vec![1u8; 32], ranges: 1, multi: 1 };
    let upper = CaseTable { bytes: vec![2u8; 16], ranges: 1, multi: 0 };
    let uses = vec![
        Named::Str("hi".to_string()),
        Named::ToUpper,
        Named::Format,
        Named::Str("true".to_string()),
        Named::ToLower,
    ];
    let lits = Literals::of_body(&uses, &lower, &upper);
    assert_eq!(lits.address("hi"), Some(16));
    assert_eq!(lits.address("true"), Some(18));
    assert_eq!(lits.address("false"), Some(22));
    // Strings end at 27; lower case first, from 28; upper after it, at 60.
    assert_eq!(lits.table(Case::Lower), Some((28, 1, 44, 1)));
    assert_eq!(lits.table(Case::Upper), Some((60, 1, 76, 0)));
    assert_eq!(lits.heap_base(), 80);
}

#[test]
fn a_body_that_maps_no_case_keeps_its_layout() {
    let none = CaseTable { bytes: Vec::new(), ranges: 0, multi: 0 };
    let lits = Literals::of_body(&[Named::Str("abc".to_string())], &none, &none);
    assert_eq!(lits.table(Case::Lower), None);
    assert_eq!(lits.heap_base(), Literals::of(&["abc".to_string()]).heap_base());
}
