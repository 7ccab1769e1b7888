//! **A stable bottom-up merge sort, as core-module instructions.** The list
//! at `ptr` with `len` elements of `esize` bytes is copied into a fresh
//! array; runs of `width` elements are merged pairwise into a second array,
//! the arrays swap, and `width` doubles until one run holds every element.
//!
//! Which element comes first is the caller's code: it reads the elements at
//! the addresses in locals `a` and `b` and leaves 1 in `take` when the one at
//! `a` goes first. So the sort is written in two parts, `head` before that
//! code and `tail` after it; the caller's code goes between them.
use vstd::prelude::*;

use crate::backend::code::{Instr, ValKind};

verus! {

/// The locals a merge sort works with: the two arrays, the run width, the
/// bounds of the two runs being merged, the three cursors, the caller's
/// verdict, a spare for swapping, a scratch sum, and the addresses of the
/// two elements compared.
#[derive(Debug, Clone, Copy, PartialEq, Eq, Structural)]
pub struct SortLocals {
    pub src: u32,
    pub dst: u32,
    pub width: u32,
    pub lo: u32,
    pub mid: u32,
    pub hi: u32,
    pub i: u32,
    pub j: u32,
    pub k: u32,
    pub take: u32,
    pub swap: u32,
    pub sum: u32,
    pub a: u32,
    pub b: u32,
}

/// Instructions, and the types of the locals they take, in order.
#[derive(Debug)]
pub struct Emitted {
    pub ops: Vec<Instr>,
    pub locals: Vec<ValKind>,
}

/// The locals a sort takes, counting from the first free one, `next`.
pub open spec fn sort_locals(next: u32) -> SortLocals {
    SortLocals {
        src: (next + 1) as u32,
        dst: (next + 3) as u32,
        width: (next + 5) as u32,
        lo: (next + 6) as u32,
        mid: (next + 7) as u32,
        hi: (next + 8) as u32,
        i: (next + 9) as u32,
        j: (next + 10) as u32,
        k: (next + 11) as u32,
        take: (next + 12) as u32,
        swap: (next + 13) as u32,
        sum: (next + 14) as u32,
        a: (next + 15) as u32,
        b: (next + 16) as u32,
    }
}

/// The types of the locals `head` takes: each array's byte count (`i64`)
/// and address, the copy's byte count, then the working locals.
pub open spec fn head_locals() -> Seq<ValKind> {
    seq![ValKind::I64, ValKind::I32, ValKind::I64, ValKind::I32]
        + Seq::new(13, |i: int| ValKind::I32)
}

/// An array of `count` elements of `size` bytes: a length past `i32::MAX`
/// bytes traps; the block comes from the allocator, its address into `out`.
pub open spec fn alloc_array_ops(
    s: Seq<Instr>,
    count: u32,
    size: u32,
    align: u32,
    bytes: u32,
    out: u32,
    realloc_index: u32,
) -> Seq<Instr> {
    s.push(Instr::LocalGet(count))
        .push(Instr::I64ExtendI32U)
        .push(Instr::I64Const(size as i64))
        .push(Instr::I64Mul)
        .push(Instr::LocalTee(bytes))
        .push(Instr::I64Const(0x7fff_ffffi64))
        .push(Instr::I64GtU)
        .push(Instr::If)
        .push(Instr::Unreachable)
        .push(Instr::End)
        .push(Instr::I32Const(0))
        .push(Instr::I32Const(0))
        .push(Instr::I32Const(align as i32))
        .push(Instr::LocalGet(bytes))
        .push(Instr::I32WrapI64)
        .push(Instr::Call(realloc_index))
        .push(Instr::LocalSet(out))
}

/// The address of element `index` of the array at `base` into `at`.
pub open spec fn element_address_ops(s: Seq<Instr>, base: u32, index: u32, size: u32, at: u32) -> Seq<Instr> {
    s.push(Instr::LocalGet(base))
        .push(Instr::LocalGet(index))
        .push(Instr::I32Const(size as i32))
        .push(Instr::I32Mul)
        .push(Instr::I32Add)
        .push(Instr::LocalSet(at))
}

/// Copy `size` bytes from the address in `src` to the one in `dst`.
pub open spec fn copy_ops(s: Seq<Instr>, dst: u32, src: u32, size: u32) -> Seq<Instr> {
    s.push(Instr::LocalGet(dst))
        .push(Instr::LocalGet(src))
        .push(Instr::I32Const(size as i32))
        .push(Instr::MemoryCopy)
}

/// Push the smaller of the `i32`s in `a` and `b`.
pub open spec fn min_ops(s: Seq<Instr>, a: u32, b: u32) -> Seq<Instr> {
    s.push(Instr::LocalGet(a))
        .push(Instr::LocalGet(b))
        .push(Instr::LocalGet(a))
        .push(Instr::LocalGet(b))
        .push(Instr::I32LtU)
        .push(Instr::Select)
}

/// Everything before the caller's comparison: the copy, the three loops
/// opened, the runs' bounds, and the element addresses once neither run is
/// spent.
pub open spec fn head_ops(ptr: u32, len: u32, next: u32, esize: u32, ealign: u32, realloc_index: u32) -> Seq<Instr> {
    let l = sort_locals(next);
    let s = alloc_array_ops(Seq::empty(), len, esize, ealign, next, l.src, realloc_index);
    let s = alloc_array_ops(s, len, esize, ealign, (next + 2) as u32, l.dst, realloc_index);
    let bytes = (next + 4) as u32;
    let s = s.push(Instr::LocalGet(len))
        .push(Instr::I32Const(esize as i32))
        .push(Instr::I32Mul)
        .push(Instr::LocalSet(bytes))
        .push(Instr::LocalGet(l.src))
        .push(Instr::LocalGet(ptr))
        .push(Instr::LocalGet(bytes))
        .push(Instr::MemoryCopy);
    // while width < len
    let s = s.push(Instr::I32Const(1))
        .push(Instr::LocalSet(l.width))
        .push(Instr::Block)
        .push(Instr::Loop)
        .push(Instr::LocalGet(l.width))
        .push(Instr::LocalGet(len))
        .push(Instr::I32GeU)
        .push(Instr::BrIf(1))
        .push(Instr::I32Const(0))
        .push(Instr::LocalSet(l.lo));
    // while lo < len
    let s = s.push(Instr::Block)
        .push(Instr::Loop)
        .push(Instr::LocalGet(l.lo))
        .push(Instr::LocalGet(len))
        .push(Instr::I32GeU)
        .push(Instr::BrIf(1))
        .push(Instr::LocalGet(l.lo))
        .push(Instr::LocalGet(l.width))
        .push(Instr::I32Add)
        .push(Instr::LocalSet(l.sum));
    let s = min_ops(s, l.sum, len).push(Instr::LocalSet(l.mid));
    let s = s.push(Instr::LocalGet(l.lo))
        .push(Instr::LocalGet(l.width))
        .push(Instr::I32Const(1))
        .push(Instr::I32Shl)
        .push(Instr::I32Add)
        .push(Instr::LocalSet(l.sum));
    let s = min_ops(s, l.sum, len).push(Instr::LocalSet(l.hi));
    let s = s.push(Instr::LocalGet(l.lo))
        .push(Instr::LocalSet(l.i))
        .push(Instr::LocalGet(l.mid))
        .push(Instr::LocalSet(l.j))
        .push(Instr::LocalGet(l.lo))
        .push(Instr::LocalSet(l.k));
    // while k < hi; take = j >= hi ? 1 : (i >= mid ? 0 : the caller's verdict)
    let s = s.push(Instr::Block)
        .push(Instr::Loop)
        .push(Instr::LocalGet(l.k))
        .push(Instr::LocalGet(l.hi))
        .push(Instr::I32GeU)
        .push(Instr::BrIf(1))
        .push(Instr::LocalGet(l.j))
        .push(Instr::LocalGet(l.hi))
        .push(Instr::I32GeU)
        .push(Instr::If)
        .push(Instr::I32Const(1))
        .push(Instr::LocalSet(l.take))
        .push(Instr::Else)
        .push(Instr::LocalGet(l.i))
        .push(Instr::LocalGet(l.mid))
        .push(Instr::I32GeU)
        .push(Instr::If)
        .push(Instr::I32Const(0))
        .push(Instr::LocalSet(l.take))
        .push(Instr::Else);
    let s = element_address_ops(s, l.src, l.i, esize, l.a);
    element_address_ops(s, l.src, l.j, esize, l.b)
}

/// Everything after the caller's comparison, whose own locals end before
/// `next`: the element taken copied into place, the cursors moved, and the
/// loops closed, the arrays swapping and `width` doubling between passes.
pub open spec fn tail_ops(l: SortLocals, next: u32, esize: u32) -> Seq<Instr> {
    let to = next;
    let from_i = (next + 1) as u32;
    let from_j = (next + 2) as u32;
    let s = Seq::<Instr>::empty().push(Instr::End).push(Instr::End);
    let s = element_address_ops(s, l.dst, l.k, esize, to);
    let s = s.push(Instr::LocalGet(l.take)).push(Instr::If);
    let s = element_address_ops(s, l.src, l.i, esize, from_i);
    let s = copy_ops(s, to, from_i, esize);
    let s = s.push(Instr::LocalGet(l.i))
        .push(Instr::I32Const(1))
        .push(Instr::I32Add)
        .push(Instr::LocalSet(l.i))
        .push(Instr::Else);
    let s = element_address_ops(s, l.src, l.j, esize, from_j);
    let s = copy_ops(s, to, from_j, esize);
    let s = s.push(Instr::LocalGet(l.j))
        .push(Instr::I32Const(1))
        .push(Instr::I32Add)
        .push(Instr::LocalSet(l.j))
        .push(Instr::End);
    let s = s.push(Instr::LocalGet(l.k))
        .push(Instr::I32Const(1))
        .push(Instr::I32Add)
        .push(Instr::LocalSet(l.k))
        .push(Instr::Br(0))
        .push(Instr::End)
        .push(Instr::End);
    // lo += 2 * width
    let s = s.push(Instr::LocalGet(l.lo))
        .push(Instr::LocalGet(l.width))
        .push(Instr::I32Const(1))
        .push(Instr::I32Shl)
        .push(Instr::I32Add)
        .push(Instr::LocalSet(l.lo))
        .push(Instr::Br(0))
        .push(Instr::End)
        .push(Instr::End);
    // swap the arrays; width *= 2
    s.push(Instr::LocalGet(l.src))
        .push(Instr::LocalSet(l.swap))
        .push(Instr::LocalGet(l.dst))
        .push(Instr::LocalSet(l.src))
        .push(Instr::LocalGet(l.swap))
        .push(Instr::LocalSet(l.dst))
        .push(Instr::LocalGet(l.width))
        .push(Instr::I32Const(1))
        .push(Instr::I32Shl)
        .push(Instr::LocalSet(l.width))
        .push(Instr::Br(0))
        .push(Instr::End)
        .push(Instr::End)
}

fn alloc_array(ops: &mut Vec<Instr>, count: u32, size: u32, align: u32, bytes: u32, out: u32, realloc_index: u32)
    ensures
        final(ops)@ == alloc_array_ops(old(ops)@, count, size, align, bytes, out, realloc_index),
{
    ops.push(Instr::LocalGet(count));
    ops.push(Instr::I64ExtendI32U);
    ops.push(Instr::I64Const(size as i64));
    ops.push(Instr::I64Mul);
    ops.push(Instr::LocalTee(bytes));
    ops.push(Instr::I64Const(0x7fff_ffff));
    ops.push(Instr::I64GtU);
    ops.push(Instr::If);
    ops.push(Instr::Unreachable);
    ops.push(Instr::End);
    ops.push(Instr::I32Const(0));
    ops.push(Instr::I32Const(0));
    ops.push(Instr::I32Const(align as i32));
    ops.push(Instr::LocalGet(bytes));
    ops.push(Instr::I32WrapI64);
    ops.push(Instr::Call(realloc_index));
    ops.push(Instr::LocalSet(out));
}

fn element_address(ops: &mut Vec<Instr>, base: u32, index: u32, size: u32, at: u32)
    ensures
        final(ops)@ == element_address_ops(old(ops)@, base, index, size, at),
{
    ops.push(Instr::LocalGet(base));
    ops.push(Instr::LocalGet(index));
    ops.push(Instr::I32Const(size as i32));
    ops.push(Instr::I32Mul);
    ops.push(Instr::I32Add);
    ops.push(Instr::LocalSet(at));
}

fn copy(ops: &mut Vec<Instr>, dst: u32, src: u32, size: u32)
    ensures
        final(ops)@ == copy_ops(old(ops)@, dst, src, size),
{
    ops.push(Instr::LocalGet(dst));
    ops.push(Instr::LocalGet(src));
    ops.push(Instr::I32Const(size as i32));
    ops.push(Instr::MemoryCopy);
}

fn min(ops: &mut Vec<Instr>, a: u32, b: u32)
    ensures
        final(ops)@ == min_ops(old(ops)@, a, b),
{
    ops.push(Instr::LocalGet(a));
    ops.push(Instr::LocalGet(b));
    ops.push(Instr::LocalGet(a));
    ops.push(Instr::LocalGet(b));
    ops.push(Instr::I32LtU);
    ops.push(Instr::Select);
}

/// **The first part of a merge sort** of the list at the address in local
/// `ptr`, `len` (a local) elements of `esize` bytes aligned to `ealign`,
/// its locals counted from `next`. The caller's comparison follows it,
/// reading the elements at `a` and `b` and setting `take`.
pub fn head(ptr: u32, len: u32, next: u32, esize: u32, ealign: u32, realloc_index: u32) -> (r: (Emitted, SortLocals))
    requires
        next + 17 <= u32::MAX,
    ensures
        r.0.ops@ == head_ops(ptr, len, next, esize, ealign, realloc_index),
        r.0.locals@ == head_locals(),
        r.1 == sort_locals(next),
{
    let l = SortLocals {
        src: next + 1,
        dst: next + 3,
        width: next + 5,
        lo: next + 6,
        mid: next + 7,
        hi: next + 8,
        i: next + 9,
        j: next + 10,
        k: next + 11,
        take: next + 12,
        swap: next + 13,
        sum: next + 14,
        a: next + 15,
        b: next + 16,
    };
    let mut ops: Vec<Instr> = Vec::new();
    alloc_array(&mut ops, len, esize, ealign, next, l.src, realloc_index);
    alloc_array(&mut ops, len, esize, ealign, next + 2, l.dst, realloc_index);
    let bytes: u32 = next + 4;
    ops.push(Instr::LocalGet(len));
    ops.push(Instr::I32Const(esize as i32));
    ops.push(Instr::I32Mul);
    ops.push(Instr::LocalSet(bytes));
    ops.push(Instr::LocalGet(l.src));
    ops.push(Instr::LocalGet(ptr));
    ops.push(Instr::LocalGet(bytes));
    ops.push(Instr::MemoryCopy);
    ops.push(Instr::I32Const(1));
    ops.push(Instr::LocalSet(l.width));
    ops.push(Instr::Block);
    ops.push(Instr::Loop);
    ops.push(Instr::LocalGet(l.width));
    ops.push(Instr::LocalGet(len));
    ops.push(Instr::I32GeU);
    ops.push(Instr::BrIf(1));
    ops.push(Instr::I32Const(0));
    ops.push(Instr::LocalSet(l.lo));
    ops.push(Instr::Block);
    ops.push(Instr::Loop);
    ops.push(Instr::LocalGet(l.lo));
    ops.push(Instr::LocalGet(len));
    ops.push(Instr::I32GeU);
    ops.push(Instr::BrIf(1));
    ops.push(Instr::LocalGet(l.lo));
    ops.push(Instr::LocalGet(l.width));
    ops.push(Instr::I32Add);
    ops.push(Instr::LocalSet(l.sum));
    min(&mut ops, l.sum, len);
    ops.push(Instr::LocalSet(l.mid));
    ops.push(Instr::LocalGet(l.lo));
    ops.push(Instr::LocalGet(l.width));
    ops.push(Instr::I32Const(1));
    ops.push(Instr::I32Shl);
    ops.push(Instr::I32Add);
    ops.push(Instr::LocalSet(l.sum));
    min(&mut ops, l.sum, len);
    ops.push(Instr::LocalSet(l.hi));
    ops.push(Instr::LocalGet(l.lo));
    ops.push(Instr::LocalSet(l.i));
    ops.push(Instr::LocalGet(l.mid));
    ops.push(Instr::LocalSet(l.j));
    ops.push(Instr::LocalGet(l.lo));
    ops.push(Instr::LocalSet(l.k));
    ops.push(Instr::Block);
    ops.push(Instr::Loop);
    ops.push(Instr::LocalGet(l.k));
    ops.push(Instr::LocalGet(l.hi));
    ops.push(Instr::I32GeU);
    ops.push(Instr::BrIf(1));
    ops.push(Instr::LocalGet(l.j));
    ops.push(Instr::LocalGet(l.hi));
    ops.push(Instr::I32GeU);
    ops.push(Instr::If);
    ops.push(Instr::I32Const(1));
    ops.push(Instr::LocalSet(l.take));
    ops.push(Instr::Else);
    ops.push(Instr::LocalGet(l.i));
    ops.push(Instr::LocalGet(l.mid));
    ops.push(Instr::I32GeU);
    ops.push(Instr::If);
    ops.push(Instr::I32Const(0));
    ops.push(Instr::LocalSet(l.take));
    ops.push(Instr::Else);
    element_address(&mut ops, l.src, l.i, esize, l.a);
    element_address(&mut ops, l.src, l.j, esize, l.b);
    let mut locals: Vec<ValKind> = vec![ValKind::I64, ValKind::I32, ValKind::I64, ValKind::I32];
    let mut n: usize = 0;
    while n < 13
        invariant
            n <= 13,
            locals@ == seq![ValKind::I64, ValKind::I32, ValKind::I64, ValKind::I32] + Seq::new(
                n as nat,
                |i: int| ValKind::I32,
            ),
        decreases 13 - n,
    {
        locals.push(ValKind::I32);
        n = n + 1;
        assert(locals@ =~= seq![ValKind::I64, ValKind::I32, ValKind::I64, ValKind::I32] + Seq::new(
            n as nat,
            |i: int| ValKind::I32,
        ));
    }
    (Emitted { ops, locals }, l)
}

/// **The second part of a merge sort**, after the caller's comparison,
/// whose own locals end before `next`. Once it has run, the sorted array's
/// address is in `l.src`.
pub fn tail(l: SortLocals, next: u32, esize: u32) -> (r: Emitted)
    requires
        next + 2 <= u32::MAX,
    ensures
        r.ops@ == tail_ops(l, next, esize),
        r.locals@ == seq![ValKind::I32, ValKind::I32, ValKind::I32],
{
    let to: u32 = next;
    let from_i: u32 = next + 1;
    let from_j: u32 = next + 2;
    let mut ops: Vec<Instr> = Vec::new();
    ops.push(Instr::End);
    ops.push(Instr::End);
    element_address(&mut ops, l.dst, l.k, esize, to);
    ops.push(Instr::LocalGet(l.take));
    ops.push(Instr::If);
    element_address(&mut ops, l.src, l.i, esize, from_i);
    copy(&mut ops, to, from_i, esize);
    ops.push(Instr::LocalGet(l.i));
    ops.push(Instr::I32Const(1));
    ops.push(Instr::I32Add);
    ops.push(Instr::LocalSet(l.i));
    ops.push(Instr::Else);
    element_address(&mut ops, l.src, l.j, esize, from_j);
    copy(&mut ops, to, from_j, esize);
    ops.push(Instr::LocalGet(l.j));
    ops.push(Instr::I32Const(1));
    ops.push(Instr::I32Add);
    ops.push(Instr::LocalSet(l.j));
    ops.push(Instr::End);
    ops.push(Instr::LocalGet(l.k));
    ops.push(Instr::I32Const(1));
    ops.push(Instr::I32Add);
    ops.push(Instr::LocalSet(l.k));
    ops.push(Instr::Br(0));
    ops.push(Instr::End);
    ops.push(Instr::End);
    ops.push(Instr::LocalGet(l.lo));
    ops.push(Instr::LocalGet(l.width));
    ops.push(Instr::I32Const(1));
    ops.push(Instr::I32Shl);
    ops.push(Instr::I32Add);
    ops.push(Instr::LocalSet(l.lo));
    ops.push(Instr::Br(0));
    ops.push(Instr::End);
    ops.push(Instr::End);
    ops.push(Instr::LocalGet(l.src));
    ops.push(Instr::LocalSet(l.swap));
    ops.push(Instr::LocalGet(l.dst));
    ops.push(Instr::LocalSet(l.src));
    ops.push(Instr::LocalGet(l.swap));
    ops.push(Instr::LocalSet(l.dst));
    ops.push(Instr::LocalGet(l.width));
    ops.push(Instr::I32Const(1));
    ops.push(Instr::I32Shl);
    ops.push(Instr::LocalSet(l.width));
    ops.push(Instr::Br(0));
    ops.push(Instr::End);
    ops.push(Instr::End);
    (Emitted { ops, locals: vec![ValKind::I32, ValKind::I32, ValKind::I32] })
}

} // verus!
