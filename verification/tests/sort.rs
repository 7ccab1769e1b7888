use pw_core::backend::code::{Instr, ValKind};
use pw_core::backend::sort::{head, tail};

fn opened(ops: &[Instr]) -> i64 {
    let mut depth: i64 = 0;
    for op in ops {
        match op {
            Instr::Block | Instr::Loop | Instr::If => depth += 1,
            Instr::End => depth -= 1,
            _ => {}
        }
    }
    depth
}

#[test]
fn the_two_parts_of_a_sort_leave_every_block_closed() {
    let (h, l) = head(0, 1, 10, 8, 4, 3);
    assert_eq!(opened(&h.ops), 8);
    let t = tail(l, 40, 8);
    assert_eq!(opened(&t.ops), -8);
    assert_eq!(h.locals.len(), 17);
    assert_eq!(h.locals[0], ValKind::I64);
    assert_eq!(t.locals, vec![ValKind::I32; 3]);
}

#[test]
fn a_sort_copies_the_list_into_an_array_of_its_own() {
    let (h, l) = head(0, 1, 10, 8, 4, 3);
    assert_eq!(l.src, 11);
    assert_eq!(l.dst, 13);
    assert_eq!(l.a, 25);
    assert_eq!(l.b, 26);
    // Each array: len * 8 bytes, trapping past i32::MAX, from the allocator.
    assert_eq!(
        &h.ops[..17],
        &[
            Instr::LocalGet(1),
            Instr::I64ExtendI32U,
            Instr::I64Const(8),
            Instr::I64Mul,
            Instr::LocalTee(10),
            Instr::I64Const(0x7fff_ffff),
            Instr::I64GtU,
            Instr::If,
            Instr::Unreachable,
            Instr::End,
            Instr::I32Const(0),
            Instr::I32Const(0),
            Instr::I32Const(4),
            Instr::LocalGet(10),
            Instr::I32WrapI64,
            Instr::Call(3),
            Instr::LocalSet(11),
        ]
    );
    assert_eq!(
        &h.ops[34..42],
        &[
            Instr::LocalGet(1),
            Instr::I32Const(8),
            Instr::I32Mul,
            Instr::LocalSet(14),
            Instr::LocalGet(11),
            Instr::LocalGet(0),
            Instr::LocalGet(14),
            Instr::MemoryCopy,
        ]
    );
}

#[test]
fn after_each_pass_the_arrays_swap_and_the_width_doubles() {
    let (_, l) = head(0, 1, 10, 8, 4, 3);
    let t = tail(l, 40, 8);
    let n = t.ops.len();
    assert_eq!(
        &t.ops[n - 13..],
        &[
            Instr::LocalGet(l.src),
            Instr::LocalSet(l.swap),
            Instr::LocalGet(l.dst),
            Instr::LocalSet(l.src),
            Instr::LocalGet(l.swap),
            Instr::LocalSet(l.dst),
            Instr::LocalGet(l.width),
            Instr::I32Const(1),
            Instr::I32Shl,
            Instr::LocalSet(l.width),
            Instr::Br(0),
            Instr::End,
            Instr::End,
        ]
    );
}
