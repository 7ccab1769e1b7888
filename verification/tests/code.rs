use pw_core::backend::code::{HelperCode, Instr, ValKind};
use pw_core::backend::wasm::Helper;

const ALL: [Helper; 14] = [
    Helper::StrEq,
    Helper::StrCmp,
    Helper::IntToString,
    Helper::Utf8Count,
    Helper::Codepoints,
    Helper::FromCodepoints,
    Helper::StartsWith,
    Helper::EndsWith,
    Helper::Contains,
    Helper::Join,
    Helper::Trim,
    Helper::LowerAscii,
    Helper::Slice,
    Helper::CaseMap,
];

/// Blocks open at the end (the function's own frame counted), whether any
/// branch leaves the function's labels, and whether any local is out of
/// range or any call is not to `realloc`.
fn shape(code: &HelperCode, params: u32, realloc: u32) -> (i64, bool) {
    let locals: u32 = code.locals.iter().map(|(n, _)| *n).sum();
    let n = params + locals;
    let mut depth: i64 = 1;
    let mut fine = true;
    for op in &code.ops {
        if depth < 1 {
            fine = false;
        }
        match *op {
            Instr::Block | Instr::Loop | Instr::If => depth += 1,
            Instr::End => depth -= 1,
            Instr::Else => fine &= depth >= 2,
            Instr::Br(k) | Instr::BrIf(k) => fine &= (k as i64) < depth,
            Instr::LocalGet(k) | Instr::LocalSet(k) | Instr::LocalTee(k) => fine &= k < n,
            Instr::Call(k) => fine &= k == realloc,
            _ => {}
        }
    }
    (depth, fine)
}

#[test]
fn every_helper_body_is_balanced_and_in_range() {
    for h in ALL {
        let (params, _) = h.signature();
        let code = h.body(9, 3);
        assert_eq!(shape(&code, params.len() as u32, 9), (0, true), "{:?}", h);
        assert_eq!(code.ops.last(), Some(&Instr::End), "{:?}", h);
    }
}

#[test]
fn str_eq_compares_the_lengths_then_each_byte() {
    let code = Helper::StrEq.body(3, 3);
    assert_eq!(code.locals, vec![(1, ValKind::I32)]);
    let want = vec![
        Instr::LocalGet(1), Instr::LocalGet(3), Instr::I32Ne, Instr::If, Instr::I32Const(0), Instr::Return, Instr::End,
        Instr::Block, Instr::Loop, Instr::LocalGet(4), Instr::LocalGet(1), Instr::I32GeU, Instr::BrIf(1),
        Instr::LocalGet(0), Instr::LocalGet(4), Instr::I32Add, Instr::I32Load8U(0),
        Instr::LocalGet(2), Instr::LocalGet(4), Instr::I32Add, Instr::I32Load8U(0),
        Instr::I32Ne, Instr::If, Instr::I32Const(0), Instr::Return, Instr::End,
        Instr::LocalGet(4), Instr::I32Const(1), Instr::I32Add, Instr::LocalSet(4), Instr::Br(0), Instr::End, Instr::End,
        Instr::I32Const(1), Instr::End,
    ];
    assert_eq!(code.ops, want);
}

#[test]
fn int_to_string_allocates_twenty_bytes_from_the_allocator() {
    let code = Helper::IntToString.body(42, 3);
    assert_eq!(code.locals, vec![(3, ValKind::I32), (1, ValKind::I64)]);
    assert_eq!(
        &code.ops[..5],
        &[Instr::I32Const(0), Instr::I32Const(0), Instr::I32Const(1), Instr::I32Const(20), Instr::Call(42)]
    );
}

#[test]
fn case_map_allocates_growth_bytes_for_each_input_byte() {
    let code = Helper::CaseMap.body(5, 3);
    assert_eq!(code.locals, vec![(12, ValKind::I32)]);
    assert_eq!(
        &code.ops[..8],
        &[
            Instr::I32Const(0),
            Instr::I32Const(0),
            Instr::I32Const(1),
            Instr::LocalGet(1),
            Instr::I32Const(3),
            Instr::I32Mul,
            Instr::Call(5),
            Instr::LocalSet(7),
        ]
    );
}

#[test]
fn utf8_count_counts_the_bytes_that_begin_a_code_point() {
    let code = pw_core::backend::code::string_helper(Helper::Utf8Count, 0, 3);
    assert_eq!(code.locals, vec![(1, ValKind::I32), (1, ValKind::I64)]);
    let want = vec![
        Instr::I32Const(0), Instr::LocalSet(2), Instr::Block, Instr::Loop, Instr::LocalGet(2), Instr::LocalGet(1), Instr::I32GeU, Instr::BrIf(1),
        Instr::LocalGet(0), Instr::LocalGet(2), Instr::I32Add, Instr::I32Load8U(0), Instr::I32Const(0xC0), Instr::I32And, Instr::I32Const(0x80),
        Instr::I32Ne, Instr::If, Instr::LocalGet(3), Instr::I64Const(1), Instr::I64Add, Instr::LocalSet(3), Instr::End,
        Instr::LocalGet(2), Instr::I32Const(1), Instr::I32Add, Instr::LocalSet(2), Instr::Br(0), Instr::End, Instr::End,
        Instr::LocalGet(3), Instr::End,
    ];
    assert_eq!(code.ops, want);
}

#[test]
fn each_helper_has_its_signature() {
    assert_eq!(Helper::IntToString.signature(), (vec![ValKind::I64], vec![ValKind::I32, ValKind::I32]));
    assert_eq!(Helper::Utf8Count.signature(), (vec![ValKind::I32; 2], vec![ValKind::I64]));
    assert_eq!(
        Helper::Slice.signature(),
        (vec![ValKind::I32, ValKind::I32, ValKind::I64, ValKind::I64], vec![ValKind::I32; 2])
    );
    assert_eq!(Helper::CaseMap.signature(), (vec![ValKind::I32; 6], vec![ValKind::I32; 2]));
    assert_eq!(Helper::StrCmp.signature(), (vec![ValKind::I32; 4], vec![ValKind::I32]));
}
