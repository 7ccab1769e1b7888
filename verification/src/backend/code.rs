//! The module's own routines, as instruction lists: what each helper's body
//! is, and the facts about it a module that emits it relies on. Every
//! block, loop and `if` is closed by its own `end`, and the body's last
//! `end` closes the function; every branch targets an enclosing label;
//! every local is a parameter or a declared local; and the one call is to
//! the allocator.
use vstd::prelude::*;

use crate::backend::wasm::Helper;

verus! {

/// A value type of the core module.
#[derive(Debug, Clone, Copy, PartialEq, Eq, Structural)]
pub enum ValKind {
    I32,
    I64,
}

/// One core-module instruction of the kinds the helpers use. Blocks, loops
/// and `if`s produce no value; a memory access is at its natural alignment,
/// in memory 0, with the offset it carries.
#[derive(Debug, Clone, Copy, PartialEq, Eq, Structural)]
pub enum Instr {
    LocalGet(u32),
    LocalSet(u32),
    LocalTee(u32),
    I32Const(i32),
    I64Const(i64),
    Block,
    Loop,
    If,
    Else,
    End,
    Br(u32),
    BrIf(u32),
    Return,
    Unreachable,
    Call(u32),
    Select,
    I32Add,
    I32Sub,
    I32Mul,
    I32RemU,
    I32And,
    I32Or,
    I32Shl,
    I32ShrU,
    I32Eq,
    I32Ne,
    I32Eqz,
    I32LtU,
    I32LeU,
    I32GtU,
    I32GeU,
    I32WrapI64,
    I64Add,
    I64Sub,
    I64Mul,
    I64DivU,
    I64RemU,
    I64Eq,
    I64Ne,
    I64LtS,
    I64LeS,
    I64GtS,
    I64GtU,
    I64GeS,
    I64ExtendI32U,
    I32Load(u64),
    I32Load8U(u64),
    I32Store8(u64),
    I64Load(u64),
    I64Store(u64),
    MemoryCopy,
}

/// How an instruction changes the number of open blocks.
pub open spec fn delta(i: Instr) -> int {
    match i {
        Instr::Block | Instr::Loop | Instr::If => 1,
        Instr::End => -1,
        _ => 0,
    }
}

/// The blocks open after `s`, the function's own frame counted.
pub open spec fn depth(s: Seq<Instr>) -> int
    decreases s.len(),
{
    if s.len() == 0 {
        1
    } else {
        depth(s.drop_last()) + delta(s.last())
    }
}

/// Whether `i` may follow code that leaves `d` blocks open, in a function
/// with `n` parameters and locals whose allocator is function `call`.
pub open spec fn fits(i: Instr, d: int, n: int, call: u32) -> bool {
    &&& d >= 1
    &&& match i {
        Instr::LocalGet(k) | Instr::LocalSet(k) | Instr::LocalTee(k) => k < n,
        Instr::Br(k) | Instr::BrIf(k) => k < d,
        Instr::Call(k) => k == call,
        Instr::Else => d >= 2,
        _ => true,
    }
}

/// Every instruction of `s` fits where it stands.
pub open spec fn nested(s: Seq<Instr>, n: int, call: u32) -> bool
    decreases s.len(),
{
    s.len() == 0 || (nested(s.drop_last(), n, call) && fits(s.last(), depth(s.drop_last()), n, call))
}

/// A whole function body: every instruction fits, and the last `end`
/// closes the function.
pub open spec fn complete(s: Seq<Instr>, n: int, call: u32) -> bool {
    nested(s, n, call) && depth(s) == 0
}

/// Instructions being written, with the facts they keep.
pub struct Emitter {
    pub ops: Vec<Instr>,
    /// How many parameters and locals the function has.
    pub n: Ghost<int>,
    /// The allocator's function index.
    pub call: Ghost<u32>,
}

impl Emitter {
    #[verifier::opaque]
    pub open spec fn ok(&self) -> bool {
        nested(self.ops@, self.n@, self.call@)
    }

    #[verifier::opaque]
    pub open spec fn open(&self) -> int {
        depth(self.ops@)
    }

    /// Nothing written yet.
    pub fn new(n: Ghost<int>, call: Ghost<u32>) -> (r: Emitter)
        ensures
            r.ok(),
            r.open() == 1,
            r.n == n,
            r.call == call,
            r.ops@ == Seq::<Instr>::empty(),
    {
        let r = Emitter { ops: Vec::new(), n, call };
        proof {
            reveal(Emitter::ok);
            reveal(Emitter::open);
        }
        r
    }

    /// Write `i`.
    pub fn op(&mut self, i: Instr)
        requires
            old(self).ok(),
            fits(i, old(self).open(), old(self).n@, old(self).call@),
        ensures
            final(self).ok(),
            final(self).n == old(self).n,
            final(self).call == old(self).call,
            final(self).open() == old(self).open() + delta(i),
            final(self).ops@ == old(self).ops@.push(i),
    {
        proof {
            reveal(Emitter::ok);
            reveal(Emitter::open);
        }
        let ghost before = self.ops@;
        self.ops.push(i);
        assert(self.ops@.drop_last() =~= before);
    }
}

/// Code that fits and leaves no block open is a whole function body.
proof fn lemma_finished(e: &Emitter)
    requires
        e.ok(),
        e.open() == 0,
    ensures
        complete(e.ops@, e.n@, e.call@),
{
    reveal(Emitter::ok);
    reveal(Emitter::open);
}

/// A helper's extra locals and its instructions.
#[derive(Debug)]
pub struct HelperCode {
    pub locals: Vec<(u32, ValKind)>,
    pub ops: Vec<Instr>,
}

/// How many locals the declarations give.
pub open spec fn local_count(ls: Seq<(u32, ValKind)>) -> int
    decreases ls.len(),
{
    if ls.len() == 0 {
        0
    } else {
        local_count(ls.drop_last()) + ls.last().0
    }
}

/// Declare `count` more locals of type `kind`.
fn declare(v: &mut Vec<(u32, ValKind)>, count: u32, kind: ValKind)
    ensures
        final(v)@ == old(v)@.push((count, kind)),
        local_count(final(v)@) == local_count(old(v)@) + count,
{
    let ghost before = v@;
    v.push((count, kind));
    assert(v@.drop_last() =~= before);
}

/// Each helper's parameters and results.
pub open spec fn signature_spec(h: Helper) -> (Seq<ValKind>, Seq<ValKind>) {
    match h {
        Helper::StrEq | Helper::StrCmp | Helper::StartsWith | Helper::EndsWith | Helper::Contains => (
            seq![ValKind::I32, ValKind::I32, ValKind::I32, ValKind::I32],
            seq![ValKind::I32],
        ),
        Helper::IntToString => (seq![ValKind::I64], seq![ValKind::I32, ValKind::I32]),
        Helper::Utf8Count => (seq![ValKind::I32, ValKind::I32], seq![ValKind::I64]),
        Helper::Codepoints | Helper::FromCodepoints | Helper::Trim | Helper::LowerAscii => (
            seq![ValKind::I32, ValKind::I32],
            seq![ValKind::I32, ValKind::I32],
        ),
        Helper::Join => (
            seq![ValKind::I32, ValKind::I32, ValKind::I32, ValKind::I32],
            seq![ValKind::I32, ValKind::I32],
        ),
        Helper::Slice => (
            seq![ValKind::I32, ValKind::I32, ValKind::I64, ValKind::I64],
            seq![ValKind::I32, ValKind::I32],
        ),
        Helper::CaseMap => (
            seq![ValKind::I32, ValKind::I32, ValKind::I32, ValKind::I32, ValKind::I32, ValKind::I32],
            seq![ValKind::I32, ValKind::I32],
        ),
    }
}

/// A helper's code: every instruction fits, the body closes the function,
/// and each local it reads or writes is a parameter or one it declares.
pub open spec fn helper_code_ok(h: Helper, code: HelperCode, realloc_index: u32) -> bool {
    complete(code.ops@, signature_spec(h).0.len() + local_count(code.locals@), realloc_index)
}

impl Helper {
    /// The helper's parameters and results.
    pub fn signature(self) -> (r: (Vec<ValKind>, Vec<ValKind>))
        ensures
            (r.0@, r.1@) == signature_spec(self),
    {
        let r = match self {
            Helper::StrEq | Helper::StrCmp | Helper::StartsWith | Helper::EndsWith | Helper::Contains => (
                vec![ValKind::I32, ValKind::I32, ValKind::I32, ValKind::I32],
                vec![ValKind::I32],
            ),
            Helper::IntToString => (vec![ValKind::I64], vec![ValKind::I32, ValKind::I32]),
            Helper::Utf8Count => (vec![ValKind::I32, ValKind::I32], vec![ValKind::I64]),
            Helper::Codepoints | Helper::FromCodepoints | Helper::Trim | Helper::LowerAscii => (
                vec![ValKind::I32, ValKind::I32],
                vec![ValKind::I32, ValKind::I32],
            ),
            Helper::Join => (
                vec![ValKind::I32, ValKind::I32, ValKind::I32, ValKind::I32],
                vec![ValKind::I32, ValKind::I32],
            ),
            Helper::Slice => (
                vec![ValKind::I32, ValKind::I32, ValKind::I64, ValKind::I64],
                vec![ValKind::I32, ValKind::I32],
            ),
            Helper::CaseMap => (
                vec![ValKind::I32, ValKind::I32, ValKind::I32, ValKind::I32, ValKind::I32, ValKind::I32],
                vec![ValKind::I32, ValKind::I32],
            ),
        };
        proof {
            assert((r.0@, r.1@) =~~= signature_spec(self));
        }
        r
    }
}

/// What `increment` writes after `s`.
pub open spec fn increment_ops(s: Seq<Instr>, i: u32) -> Seq<Instr> {
    let s = s
        .push(Instr::LocalGet(i))
        .push(Instr::I32Const(1))
        .push(Instr::I32Add)
        .push(Instr::LocalSet(i));
    s
}

/// What `each_open` writes after `s`.
pub open spec fn each_open_ops(s: Seq<Instr>, i: u32, len: u32) -> Seq<Instr> {
    let s = s
        .push(Instr::I32Const(0))
        .push(Instr::LocalSet(i))
        .push(Instr::Block)
        .push(Instr::Loop)
        .push(Instr::LocalGet(i))
        .push(Instr::LocalGet(len))
        .push(Instr::I32GeU)
        .push(Instr::BrIf(1));
    s
}

/// What `each_close` writes after `s`.
pub open spec fn each_close_ops(s: Seq<Instr>, i: u32) -> Seq<Instr> {
    let s = increment_ops(s, i);
    let s = s.push(Instr::Br(0)).push(Instr::End).push(Instr::End);
    s
}

/// What `alloc_open` writes after `s`.
pub open spec fn alloc_open_ops(s: Seq<Instr>, align: i32) -> Seq<Instr> {
    let s = s.push(Instr::I32Const(0)).push(Instr::I32Const(0)).push(Instr::I32Const(align));
    s
}

/// What `alloc_close` writes after `s`.
pub open spec fn alloc_close_ops(s: Seq<Instr>, realloc_index: u32, into: u32) -> Seq<Instr> {
    let s = s.push(Instr::Call(realloc_index)).push(Instr::LocalSet(into));
    s
}

/// What `trap` writes after `s`.
pub open spec fn trap_ops(s: Seq<Instr>) -> Seq<Instr> {
    let s = s.push(Instr::If).push(Instr::Unreachable).push(Instr::End);
    s
}

/// What `continuation` writes after `s`.
pub open spec fn continuation_ops(s: Seq<Instr>, at: u32, offset: u64, shift: i32) -> Seq<Instr> {
    let s = s
        .push(Instr::LocalGet(at))
        .push(Instr::I32Load8U(offset))
        .push(Instr::I32Const(0x3F))
        .push(Instr::I32And);
    let s = if shift > 0 { s.push(Instr::I32Const(shift)).push(Instr::I32Shl) } else { s };
    s
}

/// What `decode_utf8` writes after `s`.
pub open spec fn decode_utf8_ops(s: Seq<Instr>, at: u32, b0: u32, cp: u32, len: u32) -> Seq<Instr> {
    let s = s
        .push(Instr::LocalGet(at))
        .push(Instr::I32Load8U(0))
        .push(Instr::LocalTee(b0))
        .push(Instr::I32Const(0x80))
        .push(Instr::I32LtU)
        .push(Instr::If)
        .push(Instr::LocalGet(b0))
        .push(Instr::LocalSet(cp))
        .push(Instr::I32Const(1))
        .push(Instr::LocalSet(len))
        .push(Instr::Else)
        .push(Instr::LocalGet(b0))
        .push(Instr::I32Const(0xE0))
        .push(Instr::I32LtU)
        .push(Instr::If)
        .push(Instr::LocalGet(b0))
        .push(Instr::I32Const(0x1F))
        .push(Instr::I32And)
        .push(Instr::I32Const(6))
        .push(Instr::I32Shl);
    let s = continuation_ops(s, at, 1, 0);
    let s = s
        .push(Instr::I32Or)
        .push(Instr::LocalSet(cp))
        .push(Instr::I32Const(2))
        .push(Instr::LocalSet(len))
        .push(Instr::Else)
        .push(Instr::LocalGet(b0))
        .push(Instr::I32Const(0xF0))
        .push(Instr::I32LtU)
        .push(Instr::If)
        .push(Instr::LocalGet(b0))
        .push(Instr::I32Const(0x0F))
        .push(Instr::I32And)
        .push(Instr::I32Const(12))
        .push(Instr::I32Shl);
    let s = continuation_ops(s, at, 1, 6);
    let s = s.push(Instr::I32Or);
    let s = continuation_ops(s, at, 2, 0);
    let s = s
        .push(Instr::I32Or)
        .push(Instr::LocalSet(cp))
        .push(Instr::I32Const(3))
        .push(Instr::LocalSet(len))
        .push(Instr::Else)
        .push(Instr::LocalGet(b0))
        .push(Instr::I32Const(0x07))
        .push(Instr::I32And)
        .push(Instr::I32Const(18))
        .push(Instr::I32Shl);
    let s = continuation_ops(s, at, 1, 12);
    let s = s.push(Instr::I32Or);
    let s = continuation_ops(s, at, 2, 6);
    let s = s.push(Instr::I32Or);
    let s = continuation_ops(s, at, 3, 0);
    let s = s
        .push(Instr::I32Or)
        .push(Instr::LocalSet(cp))
        .push(Instr::I32Const(4))
        .push(Instr::LocalSet(len))
        .push(Instr::End)
        .push(Instr::End)
        .push(Instr::End);
    s
}

/// What `is_code_point` writes after `s`.
pub open spec fn is_code_point_ops(s: Seq<Instr>, cp: u32, single: i32) -> Seq<Instr> {
    let s = s
        .push(Instr::LocalGet(cp))
        .push(Instr::I32Const(single))
        .push(Instr::I32Eq)
        .push(Instr::I32Or);
    s
}

/// What `white_space` writes after `s`.
pub open spec fn white_space_ops(s: Seq<Instr>, cp: u32) -> Seq<Instr> {
    // U+0009..=U+000D
    let s = s
        .push(Instr::LocalGet(cp))
        .push(Instr::I32Const(0x09))
        .push(Instr::I32Sub)
        .push(Instr::I32Const(5))
        .push(Instr::I32LtU);
    let s = is_code_point_ops(s, cp, 0x20);
    let s = is_code_point_ops(s, cp, 0x85);
    let s = is_code_point_ops(s, cp, 0xA0);
    let s = is_code_point_ops(s, cp, 0x1680);
    let s = is_code_point_ops(s, cp, 0x2028);
    let s = is_code_point_ops(s, cp, 0x2029);
    let s = is_code_point_ops(s, cp, 0x202F);
    let s = is_code_point_ops(s, cp, 0x205F);
    let s = is_code_point_ops(s, cp, 0x3000);
    // U+2000..=U+200A
    let s = s
        .push(Instr::LocalGet(cp))
        .push(Instr::I32Const(0x2000))
        .push(Instr::I32Sub)
        .push(Instr::I32Const(11))
        .push(Instr::I32LtU)
        .push(Instr::I32Or);
    s
}

/// What `bytes_differ` writes after `s`.
pub open spec fn bytes_differ_ops(s: Seq<Instr>, a: u32, b: u32, i: u32) -> Seq<Instr> {
    let s = s
        .push(Instr::LocalGet(a))
        .push(Instr::LocalGet(i))
        .push(Instr::I32Add)
        .push(Instr::I32Load8U(0))
        .push(Instr::LocalGet(b))
        .push(Instr::LocalGet(i))
        .push(Instr::I32Add)
        .push(Instr::I32Load8U(0))
        .push(Instr::I32Ne);
    s
}

/// What `unit` writes after `s`.
pub open spec fn unit_ops(s: Seq<Instr>, at: u32, c: u32, shift: i32, mask: i32, tag: i32, offset: u64) -> Seq<Instr> {
    let s = s.push(Instr::LocalGet(at)).push(Instr::LocalGet(c));
    let s = if shift > 0 { s.push(Instr::I32Const(shift)).push(Instr::I32ShrU) } else { s };
    let s = s
        .push(Instr::I32Const(mask))
        .push(Instr::I32And)
        .push(Instr::I32Const(tag))
        .push(Instr::I32Or)
        .push(Instr::I32Store8(offset));
    s
}

/// What `advance` writes after `s`.
pub open spec fn advance_ops(s: Seq<Instr>, at: u32, k: i32) -> Seq<Instr> {
    let s = s
        .push(Instr::LocalGet(at))
        .push(Instr::I32Const(k))
        .push(Instr::I32Add)
        .push(Instr::LocalSet(at));
    s
}

/// What `encode_utf8` writes after `s`.
pub open spec fn encode_utf8_ops(s: Seq<Instr>, at: u32, c: u32) -> Seq<Instr> {
    let s = s
        .push(Instr::LocalGet(c))
        .push(Instr::I32Const(0x80))
        .push(Instr::I32LtU)
        .push(Instr::If)
        .push(Instr::LocalGet(at))
        .push(Instr::LocalGet(c))
        .push(Instr::I32Store8(0));
    let s = advance_ops(s, at, 1);
    let s = s
        .push(Instr::Else)
        .push(Instr::LocalGet(c))
        .push(Instr::I32Const(0x800))
        .push(Instr::I32LtU)
        .push(Instr::If);
    let s = unit_ops(s, at, c, 6, 0x1F, 0xC0, 0);
    let s = unit_ops(s, at, c, 0, 0x3F, 0x80, 1);
    let s = advance_ops(s, at, 2);
    let s = s
        .push(Instr::Else)
        .push(Instr::LocalGet(c))
        .push(Instr::I32Const(0x10000))
        .push(Instr::I32LtU)
        .push(Instr::If);
    let s = unit_ops(s, at, c, 12, 0x0F, 0xE0, 0);
    let s = unit_ops(s, at, c, 6, 0x3F, 0x80, 1);
    let s = unit_ops(s, at, c, 0, 0x3F, 0x80, 2);
    let s = advance_ops(s, at, 3);
    let s = s.push(Instr::Else);
    let s = unit_ops(s, at, c, 18, 0x07, 0xF0, 0);
    let s = unit_ops(s, at, c, 12, 0x3F, 0x80, 1);
    let s = unit_ops(s, at, c, 6, 0x3F, 0x80, 2);
    let s = unit_ops(s, at, c, 0, 0x3F, 0x80, 3);
    let s = advance_ops(s, at, 4);
    let s = s.push(Instr::End).push(Instr::End).push(Instr::End);
    s
}

/// The instructions of `utf8_count_code`.
pub open spec fn utf8_count_ops(realloc_index: u32) -> Seq<Instr> {
    let s = Seq::<Instr>::empty();
    // params 0 p, 1 l; locals 2 i, 3 n (i64)
    let s = each_open_ops(s, 2, 1);
    let s = s
        .push(Instr::LocalGet(0))
        .push(Instr::LocalGet(2))
        .push(Instr::I32Add)
        .push(Instr::I32Load8U(0))
        .push(Instr::I32Const(0xC0))
        .push(Instr::I32And)
        .push(Instr::I32Const(0x80))
        .push(Instr::I32Ne)
        .push(Instr::If)
        .push(Instr::LocalGet(3))
        .push(Instr::I64Const(1))
        .push(Instr::I64Add)
        .push(Instr::LocalSet(3))
        .push(Instr::End);
    let s = each_close_ops(s, 2);
    let s = s.push(Instr::LocalGet(3)).push(Instr::End);
    s
}

/// The instructions of `codepoints_code`.
pub open spec fn codepoints_ops(realloc_index: u32) -> Seq<Instr> {
    let s = Seq::<Instr>::empty();
    // params 0 p, 1 l; locals 2 i, 3 k, 4 out, 5 count, 6 b0, 7 cp, 8 n, 9 at
    let s = each_open_ops(s, 2, 1);
    let s = s
        .push(Instr::LocalGet(0))
        .push(Instr::LocalGet(2))
        .push(Instr::I32Add)
        .push(Instr::I32Load8U(0))
        .push(Instr::I32Const(0xC0))
        .push(Instr::I32And)
        .push(Instr::I32Const(0x80))
        .push(Instr::I32Ne)
        .push(Instr::LocalGet(5))
        .push(Instr::I32Add)
        .push(Instr::LocalSet(5));
    let s = each_close_ops(s, 2);
    let s = alloc_open_ops(s, 8);
    let s = s.push(Instr::LocalGet(5)).push(Instr::I32Const(8)).push(Instr::I32Mul);
    let s = alloc_close_ops(s, realloc_index, 4);
    let s = s
        .push(Instr::I32Const(0))
        .push(Instr::LocalSet(2))
        .push(Instr::Block)
        .push(Instr::Loop)
        .push(Instr::LocalGet(2))
        .push(Instr::LocalGet(1))
        .push(Instr::I32GeU)
        .push(Instr::BrIf(1))
        .push(Instr::LocalGet(0))
        .push(Instr::LocalGet(2))
        .push(Instr::I32Add)
        .push(Instr::LocalSet(9));
    let s = decode_utf8_ops(s, 9, 6, 7, 8);
    let s = s
        .push(Instr::LocalGet(4))
        .push(Instr::LocalGet(3))
        .push(Instr::I32Const(8))
        .push(Instr::I32Mul)
        .push(Instr::I32Add)
        .push(Instr::LocalGet(7))
        .push(Instr::I64ExtendI32U)
        .push(Instr::I64Store(0))
        .push(Instr::LocalGet(2))
        .push(Instr::LocalGet(8))
        .push(Instr::I32Add)
        .push(Instr::LocalSet(2));
    let s = increment_ops(s, 3);
    let s = s
        .push(Instr::Br(0))
        .push(Instr::End)
        .push(Instr::End)
        .push(Instr::LocalGet(4))
        .push(Instr::LocalGet(5))
        .push(Instr::End);
    s
}

/// What `code_point` writes after `s`.
pub open spec fn code_point_ops(s: Seq<Instr>) -> Seq<Instr> {
    let s = s
        .push(Instr::LocalGet(0))
        .push(Instr::LocalGet(2))
        .push(Instr::I32Const(8))
        .push(Instr::I32Mul)
        .push(Instr::I32Add)
        .push(Instr::I64Load(0))
        .push(Instr::LocalSet(7));
    s
}

/// The instructions of `from_codepoints_code`.
pub open spec fn from_codepoints_ops(realloc_index: u32) -> Seq<Instr> {
    let s = Seq::<Instr>::empty();
    // params 0 lp, 1 ll; locals 2 i, 3 bytes, 4 c, 5 out, 6 cur; 7 cp (i64)
    // Pass 1: every value a scalar value, and the byte count.
    let s = each_open_ops(s, 2, 1);
    let s = code_point_ops(s);
    let s = s
        .push(Instr::LocalGet(7))
        .push(Instr::I64Const(0))
        .push(Instr::I64LtS)
        .push(Instr::LocalGet(7))
        .push(Instr::I64Const(0x10FFFF))
        .push(Instr::I64GtS)
        .push(Instr::I32Or)
        .push(Instr::LocalGet(7))
        .push(Instr::I64Const(0xD800))
        .push(Instr::I64GeS)
        .push(Instr::LocalGet(7))
        .push(Instr::I64Const(0xDFFF))
        .push(Instr::I64LeS)
        .push(Instr::I32And)
        .push(Instr::I32Or)
        .push(Instr::If)
        .push(Instr::Unreachable)
        .push(Instr::End)
        .push(Instr::LocalGet(7))
        .push(Instr::I32WrapI64)
        .push(Instr::LocalSet(4));
    // bytes += 1 + (c >= 0x80) + (c >= 0x800) + (c >= 0x10000)
    let s = s
        .push(Instr::LocalGet(3))
        .push(Instr::I32Const(1))
        .push(Instr::I32Add)
        .push(Instr::LocalGet(4))
        .push(Instr::I32Const(0x80))
        .push(Instr::I32GeU)
        .push(Instr::I32Add)
        .push(Instr::LocalGet(4))
        .push(Instr::I32Const(0x800))
        .push(Instr::I32GeU)
        .push(Instr::I32Add)
        .push(Instr::LocalGet(4))
        .push(Instr::I32Const(0x10000))
        .push(Instr::I32GeU)
        .push(Instr::I32Add)
        .push(Instr::LocalSet(3));
    let s = each_close_ops(s, 2);
    let s = alloc_open_ops(s, 1);
    let s = s.push(Instr::LocalGet(3));
    let s = alloc_close_ops(s, realloc_index, 5);
    let s = s.push(Instr::LocalGet(5)).push(Instr::LocalSet(6));
    // Pass 2: encode.
    let s = each_open_ops(s, 2, 1);
    let s = code_point_ops(s);
    let s = s.push(Instr::LocalGet(7)).push(Instr::I32WrapI64).push(Instr::LocalSet(4));
    let s = encode_utf8_ops(s, 6, 4);
    let s = each_close_ops(s, 2);
    let s = s.push(Instr::LocalGet(5)).push(Instr::LocalGet(3)).push(Instr::End);
    s
}

/// The instructions of `starts_with_code`.
pub open spec fn starts_with_ops(realloc_index: u32) -> Seq<Instr> {
    let s = Seq::<Instr>::empty();
    // params 0 p1, 1 l1, 2 p2, 3 l2; local 4 i
    let s = s
        .push(Instr::LocalGet(3))
        .push(Instr::LocalGet(1))
        .push(Instr::I32GtU)
        .push(Instr::If)
        .push(Instr::I32Const(0))
        .push(Instr::Return)
        .push(Instr::End);
    let s = each_open_ops(s, 4, 3);
    let s = bytes_differ_ops(s, 0, 2, 4);
    let s = s
        .push(Instr::If)
        .push(Instr::I32Const(0))
        .push(Instr::Return)
        .push(Instr::End);
    let s = each_close_ops(s, 4);
    let s = s.push(Instr::I32Const(1)).push(Instr::End);
    s
}

/// The instructions of `ends_with_code`.
pub open spec fn ends_with_ops(realloc_index: u32) -> Seq<Instr> {
    let s = Seq::<Instr>::empty();
    // params 0 p1, 1 l1, 2 p2, 3 l2; locals 4 i, 5 base
    let s = s
        .push(Instr::LocalGet(3))
        .push(Instr::LocalGet(1))
        .push(Instr::I32GtU)
        .push(Instr::If)
        .push(Instr::I32Const(0))
        .push(Instr::Return)
        .push(Instr::End)
        .push(Instr::LocalGet(0))
        .push(Instr::LocalGet(1))
        .push(Instr::I32Add)
        .push(Instr::LocalGet(3))
        .push(Instr::I32Sub)
        .push(Instr::LocalSet(5));
    let s = each_open_ops(s, 4, 3);
    let s = bytes_differ_ops(s, 5, 2, 4);
    let s = s
        .push(Instr::If)
        .push(Instr::I32Const(0))
        .push(Instr::Return)
        .push(Instr::End);
    let s = each_close_ops(s, 4);
    let s = s.push(Instr::I32Const(1)).push(Instr::End);
    s
}

/// The instructions of `contains_code`.
pub open spec fn contains_ops(realloc_index: u32) -> Seq<Instr> {
    let s = Seq::<Instr>::empty();
    // params 0 p1, 1 l1, 2 p2, 3 l2; locals 4 start, 5 i, 6 last, 7 here
    let s = s
        .push(Instr::LocalGet(3))
        .push(Instr::LocalGet(1))
        .push(Instr::I32GtU)
        .push(Instr::If)
        .push(Instr::I32Const(0))
        .push(Instr::Return)
        .push(Instr::End)
        .push(Instr::LocalGet(1))
        .push(Instr::LocalGet(3))
        .push(Instr::I32Sub)
        .push(Instr::LocalSet(6))
        .push(Instr::I32Const(0))
        .push(Instr::LocalSet(4))
        .push(Instr::Block)
        .push(Instr::Loop)
        .push(Instr::LocalGet(4))
        .push(Instr::LocalGet(6))
        .push(Instr::I32GtU)
        .push(Instr::BrIf(1))
        .push(Instr::LocalGet(0))
        .push(Instr::LocalGet(4))
        .push(Instr::I32Add)
        .push(Instr::LocalSet(7))
        .push(Instr::I32Const(0))
        .push(Instr::LocalSet(5))
        .push(Instr::Block)
        .push(Instr::Loop)
        .push(Instr::LocalGet(5))
        .push(Instr::LocalGet(3))
        .push(Instr::I32GeU)
        .push(Instr::If)
        .push(Instr::I32Const(1))
        .push(Instr::Return)
        .push(Instr::End);
    let s = bytes_differ_ops(s, 7, 2, 5);
    let s = s.push(Instr::BrIf(1));
    let s = increment_ops(s, 5);
    let s = s.push(Instr::Br(0)).push(Instr::End).push(Instr::End);
    let s = increment_ops(s, 4);
    let s = s
        .push(Instr::Br(0))
        .push(Instr::End)
        .push(Instr::End)
        .push(Instr::I32Const(0))
        .push(Instr::End);
    s
}

/// What `element` writes after `s`.
pub open spec fn element_ops(s: Seq<Instr>, field: u64, into: u32) -> Seq<Instr> {
    let s = s
        .push(Instr::LocalGet(0))
        .push(Instr::LocalGet(4))
        .push(Instr::I32Const(8))
        .push(Instr::I32Mul)
        .push(Instr::I32Add)
        .push(Instr::I32Load(field))
        .push(Instr::LocalSet(into));
    s
}

/// The instructions of `join_code`.
pub open spec fn join_ops(realloc_index: u32) -> Seq<Instr> {
    let s = Seq::<Instr>::empty();
    // params 0 lp, 1 ll, 2 sp, 3 sl; locals 4 i, 5 out, 6 cur, 7 ep, 8 el, 9 total; 10 wide (i64)
    // The total length, in 64 bits: the parts, and a separator between
    // each two.
    let s = each_open_ops(s, 4, 1);
    let s = element_ops(s, 4, 8);
    let s = s
        .push(Instr::LocalGet(10))
        .push(Instr::LocalGet(8))
        .push(Instr::I64ExtendI32U)
        .push(Instr::I64Add)
        .push(Instr::LocalSet(10));
    let s = each_close_ops(s, 4);
    let s = s
        .push(Instr::LocalGet(1))
        .push(Instr::If)
        .push(Instr::LocalGet(10))
        .push(Instr::LocalGet(3))
        .push(Instr::I64ExtendI32U)
        .push(Instr::LocalGet(1))
        .push(Instr::I32Const(1))
        .push(Instr::I32Sub)
        .push(Instr::I64ExtendI32U)
        .push(Instr::I64Mul)
        .push(Instr::I64Add)
        .push(Instr::LocalSet(10))
        .push(Instr::End)
        .push(Instr::LocalGet(10))
        .push(Instr::I64Const(i32::MAX as i64))
        .push(Instr::I64GtU)
        .push(Instr::If)
        .push(Instr::Unreachable)
        .push(Instr::End)
        .push(Instr::LocalGet(10))
        .push(Instr::I32WrapI64)
        .push(Instr::LocalSet(9));
    let s = alloc_open_ops(s, 1);
    let s = s.push(Instr::LocalGet(9));
    let s = alloc_close_ops(s, realloc_index, 5);
    let s = s.push(Instr::LocalGet(5)).push(Instr::LocalSet(6));
    let s = each_open_ops(s, 4, 1);
    let s = s
        .push(Instr::LocalGet(4))
        .push(Instr::If)
        .push(Instr::LocalGet(6))
        .push(Instr::LocalGet(2))
        .push(Instr::LocalGet(3))
        .push(Instr::MemoryCopy)
        .push(Instr::LocalGet(6))
        .push(Instr::LocalGet(3))
        .push(Instr::I32Add)
        .push(Instr::LocalSet(6))
        .push(Instr::End);
    let s = element_ops(s, 0, 7);
    let s = element_ops(s, 4, 8);
    let s = s
        .push(Instr::LocalGet(6))
        .push(Instr::LocalGet(7))
        .push(Instr::LocalGet(8))
        .push(Instr::MemoryCopy)
        .push(Instr::LocalGet(6))
        .push(Instr::LocalGet(8))
        .push(Instr::I32Add)
        .push(Instr::LocalSet(6));
    let s = each_close_ops(s, 4);
    let s = s.push(Instr::LocalGet(5)).push(Instr::LocalGet(9)).push(Instr::End);
    s
}

/// The instructions of `trim_code`.
pub open spec fn trim_ops(realloc_index: u32) -> Seq<Instr> {
    let s = Seq::<Instr>::empty();
    // params 0 p, 1 l; locals 2 start, 3 end, 4 cp, 5 n, 6 b0, 7 at, 8 k
    let s = s
        .push(Instr::I32Const(0))
        .push(Instr::LocalSet(2))
        .push(Instr::Block)
        .push(Instr::Loop)
        .push(Instr::LocalGet(2))
        .push(Instr::LocalGet(1))
        .push(Instr::I32GeU)
        .push(Instr::BrIf(1))
        .push(Instr::LocalGet(0))
        .push(Instr::LocalGet(2))
        .push(Instr::I32Add)
        .push(Instr::LocalSet(7));
    let s = decode_utf8_ops(s, 7, 6, 4, 5);
    let s = white_space_ops(s, 4);
    let s = s
        .push(Instr::I32Eqz)
        .push(Instr::BrIf(1))
        .push(Instr::LocalGet(2))
        .push(Instr::LocalGet(5))
        .push(Instr::I32Add)
        .push(Instr::LocalSet(2))
        .push(Instr::Br(0))
        .push(Instr::End)
        .push(Instr::End)
        .push(Instr::LocalGet(1))
        .push(Instr::LocalSet(3))
        .push(Instr::Block)
        .push(Instr::Loop)
        .push(Instr::LocalGet(3))
        .push(Instr::LocalGet(2))
        .push(Instr::I32LeU)
        .push(Instr::BrIf(1));
    // The last code point starts at the last byte that is not a
    // continuation byte.
    let s = s
        .push(Instr::LocalGet(3))
        .push(Instr::I32Const(1))
        .push(Instr::I32Sub)
        .push(Instr::LocalSet(8))
        .push(Instr::Block)
        .push(Instr::Loop)
        .push(Instr::LocalGet(0))
        .push(Instr::LocalGet(8))
        .push(Instr::I32Add)
        .push(Instr::I32Load8U(0))
        .push(Instr::I32Const(0xC0))
        .push(Instr::I32And)
        .push(Instr::I32Const(0x80))
        .push(Instr::I32Ne)
        .push(Instr::BrIf(1))
        .push(Instr::LocalGet(8))
        .push(Instr::I32Const(1))
        .push(Instr::I32Sub)
        .push(Instr::LocalSet(8))
        .push(Instr::Br(0))
        .push(Instr::End)
        .push(Instr::End)
        .push(Instr::LocalGet(0))
        .push(Instr::LocalGet(8))
        .push(Instr::I32Add)
        .push(Instr::LocalSet(7));
    let s = decode_utf8_ops(s, 7, 6, 4, 5);
    let s = white_space_ops(s, 4);
    let s = s
        .push(Instr::I32Eqz)
        .push(Instr::BrIf(1))
        .push(Instr::LocalGet(8))
        .push(Instr::LocalSet(3))
        .push(Instr::Br(0))
        .push(Instr::End)
        .push(Instr::End);
    // A view of the same bytes.
    let s = s
        .push(Instr::LocalGet(0))
        .push(Instr::LocalGet(2))
        .push(Instr::I32Add)
        .push(Instr::LocalGet(3))
        .push(Instr::LocalGet(2))
        .push(Instr::I32Sub)
        .push(Instr::End);
    s
}

/// The instructions of `lower_ascii_code`.
pub open spec fn lower_ascii_ops(realloc_index: u32) -> Seq<Instr> {
    let s = Seq::<Instr>::empty();
    // params 0 p, 1 l; locals 2 i, 3 out, 4 b
    let s = alloc_open_ops(s, 1);
    let s = s.push(Instr::LocalGet(1));
    let s = alloc_close_ops(s, realloc_index, 3);
    let s = each_open_ops(s, 2, 1);
    let s = s
        .push(Instr::LocalGet(3))
        .push(Instr::LocalGet(2))
        .push(Instr::I32Add)
        .push(Instr::LocalGet(0))
        .push(Instr::LocalGet(2))
        .push(Instr::I32Add)
        .push(Instr::I32Load8U(0))
        .push(Instr::LocalTee(4));
    // b + 32 for `A`..=`Z`: (b - 65) < 26 is 1 or 0, times 32.
    let s = s
        .push(Instr::LocalGet(4))
        .push(Instr::I32Const(65))
        .push(Instr::I32Sub)
        .push(Instr::I32Const(26))
        .push(Instr::I32LtU)
        .push(Instr::I32Const(5))
        .push(Instr::I32Shl)
        .push(Instr::I32Add)
        .push(Instr::I32Store8(0));
    let s = each_close_ops(s, 2);
    let s = s.push(Instr::LocalGet(3)).push(Instr::LocalGet(1)).push(Instr::End);
    s
}

/// What `clamp_at_zero` writes after `s`.
pub open spec fn clamp_at_zero_ops(s: Seq<Instr>, bound: u32) -> Seq<Instr> {
    let s = s
        .push(Instr::LocalGet(bound))
        .push(Instr::I64Const(0))
        .push(Instr::LocalGet(bound))
        .push(Instr::I64Const(0))
        .push(Instr::I64GtS)
        .push(Instr::Select)
        .push(Instr::LocalSet(bound));
    s
}

/// What `at_bound` writes after `s`.
pub open spec fn at_bound_ops(s: Seq<Instr>, bound: u32, into: u32) -> Seq<Instr> {
    let s = s
        .push(Instr::LocalGet(5))
        .push(Instr::LocalGet(bound))
        .push(Instr::I64Eq)
        .push(Instr::If)
        .push(Instr::LocalGet(4))
        .push(Instr::LocalSet(into))
        .push(Instr::End);
    s
}

/// The instructions of `slice_code`.
pub open spec fn slice_ops(realloc_index: u32) -> Seq<Instr> {
    let s = Seq::<Instr>::empty();
    // params 0 p, 1 l, 2 start (i64), 3 end (i64); locals 4 i, 5 cp (i64),
    // 6 from, 7 to.
    let s = clamp_at_zero_ops(s, 2);
    let s = clamp_at_zero_ops(s, 3);
    let s = s
        .push(Instr::LocalGet(1))
        .push(Instr::LocalSet(6))
        .push(Instr::LocalGet(1))
        .push(Instr::LocalSet(7));
    let s = each_open_ops(s, 4, 1);
    // At each code point's first byte, `cp` is its index.
    let s = s
        .push(Instr::LocalGet(0))
        .push(Instr::LocalGet(4))
        .push(Instr::I32Add)
        .push(Instr::I32Load8U(0))
        .push(Instr::I32Const(0xC0))
        .push(Instr::I32And)
        .push(Instr::I32Const(0x80))
        .push(Instr::I32Ne)
        .push(Instr::If);
    let s = at_bound_ops(s, 2, 6);
    let s = at_bound_ops(s, 3, 7);
    let s = s
        .push(Instr::LocalGet(5))
        .push(Instr::I64Const(1))
        .push(Instr::I64Add)
        .push(Instr::LocalSet(5))
        .push(Instr::End);
    let s = each_close_ops(s, 4);
    // An end before the start is the start: "".
    let s = s
        .push(Instr::LocalGet(7))
        .push(Instr::LocalGet(6))
        .push(Instr::LocalGet(7))
        .push(Instr::LocalGet(6))
        .push(Instr::I32GtU)
        .push(Instr::Select)
        .push(Instr::LocalSet(7))
        .push(Instr::LocalGet(0))
        .push(Instr::LocalGet(6))
        .push(Instr::I32Add)
        .push(Instr::LocalGet(7))
        .push(Instr::LocalGet(6))
        .push(Instr::I32Sub)
        .push(Instr::End);
    s
}

/// What `search` writes after `s`.
pub open spec fn search_ops(s: Seq<Instr>, base: u32, count: u32, inclusive: bool) -> Seq<Instr> {
    let s = s
        .push(Instr::I32Const(0))
        .push(Instr::LocalSet(13))
        .push(Instr::LocalGet(count))
        .push(Instr::LocalSet(14))
        .push(Instr::Block)
        .push(Instr::Loop)
        .push(Instr::LocalGet(13))
        .push(Instr::LocalGet(14))
        .push(Instr::I32GeU)
        .push(Instr::BrIf(1))
        .push(Instr::LocalGet(13))
        .push(Instr::LocalGet(14))
        .push(Instr::I32Add)
        .push(Instr::I32Const(1))
        .push(Instr::I32ShrU)
        .push(Instr::LocalSet(15))
        .push(Instr::LocalGet(base))
        .push(Instr::LocalGet(15))
        .push(Instr::I32Const(4))
        .push(Instr::I32Shl)
        .push(Instr::I32Add)
        .push(Instr::I32Load(0))
        .push(Instr::LocalGet(10));
    let s = if inclusive { s.push(Instr::I32LeU) } else { s.push(Instr::I32LtU) };
    let s = s
        .push(Instr::If)
        .push(Instr::LocalGet(15))
        .push(Instr::I32Const(1))
        .push(Instr::I32Add)
        .push(Instr::LocalSet(13))
        .push(Instr::Else)
        .push(Instr::LocalGet(15))
        .push(Instr::LocalSet(14))
        .push(Instr::End)
        .push(Instr::Br(0))
        .push(Instr::End)
        .push(Instr::End);
    s
}

/// What `multi_unit` writes after `s`.
pub open spec fn multi_unit_ops(s: Seq<Instr>, offset: u64) -> Seq<Instr> {
    let s = s
        .push(Instr::LocalGet(16))
        .push(Instr::I32Load(offset))
        .push(Instr::LocalTee(17))
        .push(Instr::I32Eqz)
        .push(Instr::BrIf(0));
    let s = encode_utf8_ops(s, 8, 17);
    s
}

/// The instructions of `case_map_code`.
pub open spec fn case_map_ops(realloc_index: u32, growth: i32) -> Seq<Instr> {
    let s = Seq::<Instr>::empty();
    // params 0 p, 1 l, 2 ranges, 3 ranges', 4 multi, 5 multi'; locals
    // 6 i, 7 out, 8 at (the output's end), 9 b0, 10 cp, 11 n, 12 from,
    // 13 lo, 14 hi, 15 mid, 16 entry, 17 c. Each entry is 16 bytes, its
    // first word the code point it is found by.
    let s = alloc_open_ops(s, 1);
    let s = s.push(Instr::LocalGet(1)).push(Instr::I32Const(growth)).push(Instr::I32Mul);
    let s = alloc_close_ops(s, realloc_index, 7);
    let s = s
        .push(Instr::LocalGet(7))
        .push(Instr::LocalSet(8))
        .push(Instr::I32Const(0))
        .push(Instr::LocalSet(6))
        .push(Instr::Block)
        .push(Instr::Loop)
        .push(Instr::LocalGet(6))
        .push(Instr::LocalGet(1))
        .push(Instr::I32GeU)
        .push(Instr::BrIf(1))
        .push(Instr::LocalGet(0))
        .push(Instr::LocalGet(6))
        .push(Instr::I32Add)
        .push(Instr::LocalSet(12));
    let s = decode_utf8_ops(s, 12, 9, 10, 11);
    let s = s
        .push(Instr::LocalGet(6))
        .push(Instr::LocalGet(11))
        .push(Instr::I32Add)
        .push(Instr::LocalSet(6));
    // A code point that maps to more than one: up to three, the first zero
    // ending them. Then the next code point.
    let s = search_ops(s, 4, 5, false);
    let s = s
        .push(Instr::LocalGet(13))
        .push(Instr::LocalGet(5))
        .push(Instr::I32LtU)
        .push(Instr::If)
        .push(Instr::LocalGet(4))
        .push(Instr::LocalGet(13))
        .push(Instr::I32Const(4))
        .push(Instr::I32Shl)
        .push(Instr::I32Add)
        .push(Instr::LocalTee(16))
        .push(Instr::I32Load(0))
        .push(Instr::LocalGet(10))
        .push(Instr::I32Eq)
        .push(Instr::If)
        .push(Instr::Block);
    let s = multi_unit_ops(s, 4);
    let s = multi_unit_ops(s, 8);
    let s = multi_unit_ops(s, 12);
    let s = s
        .push(Instr::End)
        .push(Instr::Br(2))
        .push(Instr::End)
        .push(Instr::End);
    // Otherwise the last range starting at or before it, if it covers it
    // on its stride; else it is itself.
    let s = search_ops(s, 2, 3, true);
    let s = s
        .push(Instr::LocalGet(10))
        .push(Instr::LocalSet(17))
        .push(Instr::LocalGet(13))
        .push(Instr::If)
        .push(Instr::LocalGet(2))
        .push(Instr::LocalGet(13))
        .push(Instr::I32Const(1))
        .push(Instr::I32Sub)
        .push(Instr::I32Const(4))
        .push(Instr::I32Shl)
        .push(Instr::I32Add)
        .push(Instr::LocalSet(16))
        .push(Instr::LocalGet(10))
        .push(Instr::LocalGet(16))
        .push(Instr::I32Load(4))
        .push(Instr::I32LeU)
        .push(Instr::If)
        .push(Instr::LocalGet(10))
        .push(Instr::LocalGet(16))
        .push(Instr::I32Load(0))
        .push(Instr::I32Sub)
        .push(Instr::LocalGet(16))
        .push(Instr::I32Load(12))
        .push(Instr::I32RemU)
        .push(Instr::I32Eqz)
        .push(Instr::If)
        .push(Instr::LocalGet(10))
        .push(Instr::LocalGet(16))
        .push(Instr::I32Load(8))
        .push(Instr::I32Add)
        .push(Instr::LocalSet(17))
        .push(Instr::End)
        .push(Instr::End)
        .push(Instr::End);
    let s = encode_utf8_ops(s, 8, 17);
    let s = s
        .push(Instr::Br(0))
        .push(Instr::End)
        .push(Instr::End)
        .push(Instr::LocalGet(7))
        .push(Instr::LocalGet(8))
        .push(Instr::LocalGet(7))
        .push(Instr::I32Sub)
        .push(Instr::End);
    s
}

/// The instructions of `str_eq_code`.
pub open spec fn str_eq_ops(realloc_index: u32) -> Seq<Instr> {
    let s = Seq::<Instr>::empty();
    // params: 0 p1, 1 l1, 2 p2, 3 l2; local 4 i
    let s = s
        .push(Instr::LocalGet(1))
        .push(Instr::LocalGet(3))
        .push(Instr::I32Ne)
        .push(Instr::If)
        .push(Instr::I32Const(0))
        .push(Instr::Return)
        .push(Instr::End)
        .push(Instr::Block)
        .push(Instr::Loop)
        .push(Instr::LocalGet(4))
        .push(Instr::LocalGet(1))
        .push(Instr::I32GeU)
        .push(Instr::BrIf(1))
        .push(Instr::LocalGet(0))
        .push(Instr::LocalGet(4))
        .push(Instr::I32Add)
        .push(Instr::I32Load8U(0))
        .push(Instr::LocalGet(2))
        .push(Instr::LocalGet(4))
        .push(Instr::I32Add)
        .push(Instr::I32Load8U(0))
        .push(Instr::I32Ne)
        .push(Instr::If)
        .push(Instr::I32Const(0))
        .push(Instr::Return)
        .push(Instr::End)
        .push(Instr::LocalGet(4))
        .push(Instr::I32Const(1))
        .push(Instr::I32Add)
        .push(Instr::LocalSet(4))
        .push(Instr::Br(0))
        .push(Instr::End)
        .push(Instr::End)
        .push(Instr::I32Const(1))
        .push(Instr::End);
    s
}

/// The instructions of `str_cmp_code`.
pub open spec fn str_cmp_ops(realloc_index: u32) -> Seq<Instr> {
    let s = Seq::<Instr>::empty();
    // params: 0 p1, 1 l1, 2 p2, 3 l2; locals 4 i, 5 n, 6 a, 7 b
    // n = min(l1, l2)
    let s = s
        .push(Instr::LocalGet(1))
        .push(Instr::LocalGet(3))
        .push(Instr::LocalGet(1))
        .push(Instr::LocalGet(3))
        .push(Instr::I32LtU)
        .push(Instr::Select)
        .push(Instr::LocalSet(5))
        .push(Instr::Block)
        .push(Instr::Loop)
        .push(Instr::LocalGet(4))
        .push(Instr::LocalGet(5))
        .push(Instr::I32GeU)
        .push(Instr::BrIf(1))
        .push(Instr::LocalGet(0))
        .push(Instr::LocalGet(4))
        .push(Instr::I32Add)
        .push(Instr::I32Load8U(0))
        .push(Instr::LocalSet(6))
        .push(Instr::LocalGet(2))
        .push(Instr::LocalGet(4))
        .push(Instr::I32Add)
        .push(Instr::I32Load8U(0))
        .push(Instr::LocalSet(7))
        .push(Instr::LocalGet(6))
        .push(Instr::LocalGet(7))
        .push(Instr::I32Ne)
        .push(Instr::If)
        .push(Instr::I32Const(-1i32))
        .push(Instr::I32Const(1))
        .push(Instr::LocalGet(6))
        .push(Instr::LocalGet(7))
        .push(Instr::I32LtU)
        .push(Instr::Select)
        .push(Instr::Return)
        .push(Instr::End)
        .push(Instr::LocalGet(4))
        .push(Instr::I32Const(1))
        .push(Instr::I32Add)
        .push(Instr::LocalSet(4))
        .push(Instr::Br(0))
        .push(Instr::End)
        .push(Instr::End);
    // A proper prefix orders first.
    let s = s
        .push(Instr::LocalGet(1))
        .push(Instr::LocalGet(3))
        .push(Instr::I32LtU)
        .push(Instr::If)
        .push(Instr::I32Const(-1i32))
        .push(Instr::Return)
        .push(Instr::End)
        .push(Instr::LocalGet(1))
        .push(Instr::LocalGet(3))
        .push(Instr::I32GtU)
        .push(Instr::End);
    s
}

/// The instructions of `int_to_string_code`.
pub open spec fn int_to_string_ops(realloc_index: u32) -> Seq<Instr> {
    let s = Seq::<Instr>::empty();
    // param: 0 v; locals 1 end, 2 pos, 3 neg, 4 u (i64)
    // 20 bytes hold "-9223372036854775808".
    let s = s
        .push(Instr::I32Const(0))
        .push(Instr::I32Const(0))
        .push(Instr::I32Const(1))
        .push(Instr::I32Const(20))
        .push(Instr::Call(realloc_index))
        .push(Instr::I32Const(20))
        .push(Instr::I32Add)
        .push(Instr::LocalTee(1))
        .push(Instr::LocalSet(2))
        .push(Instr::LocalGet(0))
        .push(Instr::I64Const(0))
        .push(Instr::I64LtS)
        .push(Instr::LocalSet(3));
    // The magnitude, unsigned: `0 - MIN` wraps to 2^63, which
    // is MIN's magnitude read unsigned.
    let s = s
        .push(Instr::I64Const(0))
        .push(Instr::LocalGet(0))
        .push(Instr::I64Sub)
        .push(Instr::LocalGet(0))
        .push(Instr::LocalGet(3))
        .push(Instr::Select)
        .push(Instr::LocalSet(4))
        .push(Instr::Loop)
        .push(Instr::LocalGet(2))
        .push(Instr::I32Const(1))
        .push(Instr::I32Sub)
        .push(Instr::LocalTee(2))
        .push(Instr::LocalGet(4))
        .push(Instr::I64Const(10))
        .push(Instr::I64RemU)
        .push(Instr::I32WrapI64)
        .push(Instr::I32Const(48))
        .push(Instr::I32Add)
        .push(Instr::I32Store8(0))
        .push(Instr::LocalGet(4))
        .push(Instr::I64Const(10))
        .push(Instr::I64DivU)
        .push(Instr::LocalTee(4))
        .push(Instr::I64Const(0))
        .push(Instr::I64Ne)
        .push(Instr::BrIf(0))
        .push(Instr::End)
        .push(Instr::LocalGet(3))
        .push(Instr::If)
        .push(Instr::LocalGet(2))
        .push(Instr::I32Const(1))
        .push(Instr::I32Sub)
        .push(Instr::LocalTee(2))
        .push(Instr::I32Const(45))
        .push(Instr::I32Store8(0))
        .push(Instr::End)
        .push(Instr::LocalGet(2))
        .push(Instr::LocalGet(1))
        .push(Instr::LocalGet(2))
        .push(Instr::I32Sub)
        .push(Instr::End);
    s
}

/// Each helper's extra locals: how many, and of which type.
pub open spec fn helper_locals(h: Helper) -> Seq<(u32, ValKind)> {
    match h {
        Helper::Utf8Count => seq![(1u32, ValKind::I32), (1u32, ValKind::I64)],
        Helper::Codepoints => seq![(8u32, ValKind::I32)],
        Helper::FromCodepoints => seq![(5u32, ValKind::I32), (1u32, ValKind::I64)],
        Helper::StartsWith => seq![(1u32, ValKind::I32)],
        Helper::EndsWith => seq![(2u32, ValKind::I32)],
        Helper::Contains => seq![(4u32, ValKind::I32)],
        Helper::Join => seq![(6u32, ValKind::I32), (1u32, ValKind::I64)],
        Helper::Trim => seq![(7u32, ValKind::I32)],
        Helper::LowerAscii => seq![(3u32, ValKind::I32)],
        Helper::Slice => seq![(1u32, ValKind::I32), (1u32, ValKind::I64), (2u32, ValKind::I32)],
        Helper::CaseMap => seq![(12u32, ValKind::I32)],
        Helper::StrEq => seq![(1u32, ValKind::I32)],
        Helper::StrCmp => seq![(4u32, ValKind::I32)],
        Helper::IntToString => seq![(3u32, ValKind::I32), (1u32, ValKind::I64)],
    }
}

/// Each helper's instructions, with `realloc_index` the allocator and
/// `growth` the case tables' bytes per input byte.
pub open spec fn helper_ops(h: Helper, realloc_index: u32, growth: i32) -> Seq<Instr> {
    match h {
        Helper::Utf8Count => utf8_count_ops(realloc_index),
        Helper::Codepoints => codepoints_ops(realloc_index),
        Helper::FromCodepoints => from_codepoints_ops(realloc_index),
        Helper::StartsWith => starts_with_ops(realloc_index),
        Helper::EndsWith => ends_with_ops(realloc_index),
        Helper::Contains => contains_ops(realloc_index),
        Helper::Join => join_ops(realloc_index),
        Helper::Trim => trim_ops(realloc_index),
        Helper::LowerAscii => lower_ascii_ops(realloc_index),
        Helper::Slice => slice_ops(realloc_index),
        Helper::CaseMap => case_map_ops(realloc_index, growth),
        Helper::StrEq => str_eq_ops(realloc_index),
        Helper::StrCmp => str_cmp_ops(realloc_index),
        Helper::IntToString => int_to_string_ops(realloc_index),
    }
}

/// `b` continues `a`: its code still fits, in the same function.
pub open spec fn kept(a: Emitter, b: Emitter) -> bool {
    &&& b.ok()
    &&& b.n == a.n
    &&& b.call == a.call
}

/// `i += 1`.
fn increment(e: &mut Emitter, i: u32)
    requires
        old(e).ok(),
        old(e).open() >= 1,
        i < old(e).n@,
    ensures
        final(e).ops@ == increment_ops(old(e).ops@, i),
        kept(*old(e), *final(e)),
        final(e).open() == old(e).open(),
{
    e.op(Instr::LocalGet(i));
    e.op(Instr::I32Const(1));
    e.op(Instr::I32Add);
    e.op(Instr::LocalSet(i));
}

/// The head of `while i < len { .. }`, `i` starting at 0: a block and a
/// loop, left open.
fn each_open(e: &mut Emitter, i: u32, len: u32)
    requires
        old(e).ok(),
        old(e).open() >= 1,
        i < old(e).n@,
        len < old(e).n@,
    ensures
        final(e).ops@ == each_open_ops(old(e).ops@, i, len),
        kept(*old(e), *final(e)),
        final(e).open() == old(e).open() + 2,
{
    e.op(Instr::I32Const(0));
    e.op(Instr::LocalSet(i));
    e.op(Instr::Block);
    e.op(Instr::Loop);
    e.op(Instr::LocalGet(i));
    e.op(Instr::LocalGet(len));
    e.op(Instr::I32GeU);
    e.op(Instr::BrIf(1));
}

/// The tail of that loop: `i += 1`, branch back, close the loop and the
/// block.
fn each_close(e: &mut Emitter, i: u32)
    requires
        old(e).ok(),
        old(e).open() >= 3,
        i < old(e).n@,
    ensures
        final(e).ops@ == each_close_ops(old(e).ops@, i),
        kept(*old(e), *final(e)),
        final(e).open() == old(e).open() - 2,
{
    increment(e, i);
    e.op(Instr::Br(0));
    e.op(Instr::End);
    e.op(Instr::End);
}

/// The allocator's first three arguments: no old block, no old size, the
/// alignment. The size follows.
fn alloc_open(e: &mut Emitter, align: i32)
    requires
        old(e).ok(),
        old(e).open() >= 1,
    ensures
        final(e).ops@ == alloc_open_ops(old(e).ops@, align),
        kept(*old(e), *final(e)),
        final(e).open() == old(e).open(),
{
    e.op(Instr::I32Const(0));
    e.op(Instr::I32Const(0));
    e.op(Instr::I32Const(align));
}

/// Call the allocator and keep the block's address in `into`.
fn alloc_close(e: &mut Emitter, realloc_index: u32, into: u32)
    requires
        old(e).ok(),
        old(e).open() >= 1,
        realloc_index == old(e).call@,
        into < old(e).n@,
    ensures
        final(e).ops@ == alloc_close_ops(old(e).ops@, realloc_index, into),
        kept(*old(e), *final(e)),
        final(e).open() == old(e).open(),
{
    e.op(Instr::Call(realloc_index));
    e.op(Instr::LocalSet(into));
}

/// `unreachable` when the `i32` on the stack is not zero.
fn trap(e: &mut Emitter)
    requires
        old(e).ok(),
        old(e).open() >= 1,
    ensures
        final(e).ops@ == trap_ops(old(e).ops@),
        kept(*old(e), *final(e)),
        final(e).open() == old(e).open(),
{
    e.op(Instr::If);
    e.op(Instr::Unreachable);
    e.op(Instr::End);
}

/// The payload bits of the continuation byte at `offset` past the address
/// in `at`, shifted left by `shift`.
fn continuation(e: &mut Emitter, at: u32, offset: u64, shift: i32)
    requires
        old(e).ok(),
        old(e).open() >= 1,
        at < old(e).n@,
    ensures
        final(e).ops@ == continuation_ops(old(e).ops@, at, offset, shift),
        kept(*old(e), *final(e)),
        final(e).open() == old(e).open(),
{
    e.op(Instr::LocalGet(at));
    e.op(Instr::I32Load8U(offset));
    e.op(Instr::I32Const(0x3F));
    e.op(Instr::I32And);
    if shift > 0 {
        e.op(Instr::I32Const(shift));
        e.op(Instr::I32Shl);
    }
}

/// Decode the UTF-8 code point at the address in `at` into `cp`, its byte
/// length into `len`, its first byte into `b0`. The text is valid UTF-8:
/// every string a component holds came through the Canonical ABI, which
/// lifts only valid UTF-8, or was made here from valid pieces.
fn decode_utf8(e: &mut Emitter, at: u32, b0: u32, cp: u32, len: u32)
    requires
        old(e).ok(),
        old(e).open() >= 1,
        at < old(e).n@,
        b0 < old(e).n@,
        cp < old(e).n@,
        len < old(e).n@,
    ensures
        final(e).ops@ == decode_utf8_ops(old(e).ops@, at, b0, cp, len),
        kept(*old(e), *final(e)),
        final(e).open() == old(e).open(),
{
    e.op(Instr::LocalGet(at));
    e.op(Instr::I32Load8U(0));
    e.op(Instr::LocalTee(b0));
    e.op(Instr::I32Const(0x80));
    e.op(Instr::I32LtU);
    e.op(Instr::If);
    e.op(Instr::LocalGet(b0));
    e.op(Instr::LocalSet(cp));
    e.op(Instr::I32Const(1));
    e.op(Instr::LocalSet(len));
    e.op(Instr::Else);
    e.op(Instr::LocalGet(b0));
    e.op(Instr::I32Const(0xE0));
    e.op(Instr::I32LtU);
    e.op(Instr::If);
    e.op(Instr::LocalGet(b0));
    e.op(Instr::I32Const(0x1F));
    e.op(Instr::I32And);
    e.op(Instr::I32Const(6));
    e.op(Instr::I32Shl);
    continuation(e, at, 1, 0);
    e.op(Instr::I32Or);
    e.op(Instr::LocalSet(cp));
    e.op(Instr::I32Const(2));
    e.op(Instr::LocalSet(len));
    e.op(Instr::Else);
    e.op(Instr::LocalGet(b0));
    e.op(Instr::I32Const(0xF0));
    e.op(Instr::I32LtU);
    e.op(Instr::If);
    e.op(Instr::LocalGet(b0));
    e.op(Instr::I32Const(0x0F));
    e.op(Instr::I32And);
    e.op(Instr::I32Const(12));
    e.op(Instr::I32Shl);
    continuation(e, at, 1, 6);
    e.op(Instr::I32Or);
    continuation(e, at, 2, 0);
    e.op(Instr::I32Or);
    e.op(Instr::LocalSet(cp));
    e.op(Instr::I32Const(3));
    e.op(Instr::LocalSet(len));
    e.op(Instr::Else);
    e.op(Instr::LocalGet(b0));
    e.op(Instr::I32Const(0x07));
    e.op(Instr::I32And);
    e.op(Instr::I32Const(18));
    e.op(Instr::I32Shl);
    continuation(e, at, 1, 12);
    e.op(Instr::I32Or);
    continuation(e, at, 2, 6);
    e.op(Instr::I32Or);
    continuation(e, at, 3, 0);
    e.op(Instr::I32Or);
    e.op(Instr::LocalSet(cp));
    e.op(Instr::I32Const(4));
    e.op(Instr::LocalSet(len));
    e.op(Instr::End);
    e.op(Instr::End);
    e.op(Instr::End);
}

/// Or onto the `i32` on the stack whether `cp` is the code point `single`.
fn is_code_point(e: &mut Emitter, cp: u32, single: i32)
    requires
        old(e).ok(),
        old(e).open() >= 1,
        cp < old(e).n@,
    ensures
        final(e).ops@ == is_code_point_ops(old(e).ops@, cp, single),
        kept(*old(e), *final(e)),
        final(e).open() == old(e).open(),
{
    e.op(Instr::LocalGet(cp));
    e.op(Instr::I32Const(single));
    e.op(Instr::I32Eq);
    e.op(Instr::I32Or);
}

/// Push whether the code point in `cp` has Unicode's `White_Space`
/// property: the set Rust's `char::is_whitespace` tests.
fn white_space(e: &mut Emitter, cp: u32)
    requires
        old(e).ok(),
        old(e).open() >= 1,
        cp < old(e).n@,
    ensures
        final(e).ops@ == white_space_ops(old(e).ops@, cp),
        kept(*old(e), *final(e)),
        final(e).open() == old(e).open(),
{
    // U+0009..=U+000D
    e.op(Instr::LocalGet(cp));
    e.op(Instr::I32Const(0x09));
    e.op(Instr::I32Sub);
    e.op(Instr::I32Const(5));
    e.op(Instr::I32LtU);
    is_code_point(e, cp, 0x20);
    is_code_point(e, cp, 0x85);
    is_code_point(e, cp, 0xA0);
    is_code_point(e, cp, 0x1680);
    is_code_point(e, cp, 0x2028);
    is_code_point(e, cp, 0x2029);
    is_code_point(e, cp, 0x202F);
    is_code_point(e, cp, 0x205F);
    is_code_point(e, cp, 0x3000);
    // U+2000..=U+200A
    e.op(Instr::LocalGet(cp));
    e.op(Instr::I32Const(0x2000));
    e.op(Instr::I32Sub);
    e.op(Instr::I32Const(11));
    e.op(Instr::I32LtU);
    e.op(Instr::I32Or);
}

/// Push whether the bytes at `a + i` and `b + i` differ, as an `i32`.
fn bytes_differ(e: &mut Emitter, a: u32, b: u32, i: u32)
    requires
        old(e).ok(),
        old(e).open() >= 1,
        a < old(e).n@,
        b < old(e).n@,
        i < old(e).n@,
    ensures
        final(e).ops@ == bytes_differ_ops(old(e).ops@, a, b, i),
        kept(*old(e), *final(e)),
        final(e).open() == old(e).open(),
{
    e.op(Instr::LocalGet(a));
    e.op(Instr::LocalGet(i));
    e.op(Instr::I32Add);
    e.op(Instr::I32Load8U(0));
    e.op(Instr::LocalGet(b));
    e.op(Instr::LocalGet(i));
    e.op(Instr::I32Add);
    e.op(Instr::I32Load8U(0));
    e.op(Instr::I32Ne);
}

/// Store one byte of the code point in `c` at `offset` past the address in
/// `at`: its bits from `shift` up, under `mask`, with the marker `tag`.
fn unit(e: &mut Emitter, at: u32, c: u32, shift: i32, mask: i32, tag: i32, offset: u64)
    requires
        old(e).ok(),
        old(e).open() >= 1,
        at < old(e).n@,
        c < old(e).n@,
    ensures
        final(e).ops@ == unit_ops(old(e).ops@, at, c, shift, mask, tag, offset),
        kept(*old(e), *final(e)),
        final(e).open() == old(e).open(),
{
    e.op(Instr::LocalGet(at));
    e.op(Instr::LocalGet(c));
    if shift > 0 {
        e.op(Instr::I32Const(shift));
        e.op(Instr::I32ShrU);
    }
    e.op(Instr::I32Const(mask));
    e.op(Instr::I32And);
    e.op(Instr::I32Const(tag));
    e.op(Instr::I32Or);
    e.op(Instr::I32Store8(offset));
}

/// `at += k`.
fn advance(e: &mut Emitter, at: u32, k: i32)
    requires
        old(e).ok(),
        old(e).open() >= 1,
        at < old(e).n@,
    ensures
        final(e).ops@ == advance_ops(old(e).ops@, at, k),
        kept(*old(e), *final(e)),
        final(e).open() == old(e).open(),
{
    e.op(Instr::LocalGet(at));
    e.op(Instr::I32Const(k));
    e.op(Instr::I32Add);
    e.op(Instr::LocalSet(at));
}

/// Encode the code point in `c` as UTF-8 at the address in `at`, and move
/// `at` past it.
fn encode_utf8(e: &mut Emitter, at: u32, c: u32)
    requires
        old(e).ok(),
        old(e).open() >= 1,
        at < old(e).n@,
        c < old(e).n@,
    ensures
        final(e).ops@ == encode_utf8_ops(old(e).ops@, at, c),
        kept(*old(e), *final(e)),
        final(e).open() == old(e).open(),
{
    e.op(Instr::LocalGet(c));
    e.op(Instr::I32Const(0x80));
    e.op(Instr::I32LtU);
    e.op(Instr::If);
    e.op(Instr::LocalGet(at));
    e.op(Instr::LocalGet(c));
    e.op(Instr::I32Store8(0));
    advance(e, at, 1);
    e.op(Instr::Else);
    e.op(Instr::LocalGet(c));
    e.op(Instr::I32Const(0x800));
    e.op(Instr::I32LtU);
    e.op(Instr::If);
    unit(e, at, c, 6, 0x1F, 0xC0, 0);
    unit(e, at, c, 0, 0x3F, 0x80, 1);
    advance(e, at, 2);
    e.op(Instr::Else);
    e.op(Instr::LocalGet(c));
    e.op(Instr::I32Const(0x10000));
    e.op(Instr::I32LtU);
    e.op(Instr::If);
    unit(e, at, c, 12, 0x0F, 0xE0, 0);
    unit(e, at, c, 6, 0x3F, 0x80, 1);
    unit(e, at, c, 0, 0x3F, 0x80, 2);
    advance(e, at, 3);
    e.op(Instr::Else);
    unit(e, at, c, 18, 0x07, 0xF0, 0);
    unit(e, at, c, 12, 0x3F, 0x80, 1);
    unit(e, at, c, 6, 0x3F, 0x80, 2);
    unit(e, at, c, 0, 0x3F, 0x80, 3);
    advance(e, at, 4);
    e.op(Instr::End);
    e.op(Instr::End);
    e.op(Instr::End);
}

/// `(p, l) -> i64`: how many bytes of the string begin a code point.
fn utf8_count_code(realloc_index: u32) -> (r: HelperCode)
    ensures
        r.ops@ == utf8_count_ops(realloc_index),
        r.locals@ == helper_locals(Helper::Utf8Count),
        helper_code_ok(Helper::Utf8Count, r, realloc_index),
{
    // params 0 p, 1 l; locals 2 i, 3 n (i64)
    let mut e = Emitter::new(Ghost(4int), Ghost(realloc_index));
    each_open(&mut e, 2, 1);
    e.op(Instr::LocalGet(0));
    e.op(Instr::LocalGet(2));
    e.op(Instr::I32Add);
    e.op(Instr::I32Load8U(0));
    e.op(Instr::I32Const(0xC0));
    e.op(Instr::I32And);
    e.op(Instr::I32Const(0x80));
    e.op(Instr::I32Ne);
    e.op(Instr::If);
    e.op(Instr::LocalGet(3));
    e.op(Instr::I64Const(1));
    e.op(Instr::I64Add);
    e.op(Instr::LocalSet(3));
    e.op(Instr::End);
    each_close(&mut e, 2);
    e.op(Instr::LocalGet(3));
    e.op(Instr::End);
    let mut locals: Vec<(u32, ValKind)> = Vec::new();
    declare(&mut locals, 1, ValKind::I32);
    declare(&mut locals, 1, ValKind::I64);
    proof {
        lemma_finished(&e);
    }
    HelperCode { locals, ops: e.ops }
}

/// `(p, l) -> (ptr, len)`: the string's code points, eight bytes each.
fn codepoints_code(realloc_index: u32) -> (r: HelperCode)
    ensures
        r.ops@ == codepoints_ops(realloc_index),
        r.locals@ == helper_locals(Helper::Codepoints),
        helper_code_ok(Helper::Codepoints, r, realloc_index),
{
    // params 0 p, 1 l; locals 2 i, 3 k, 4 out, 5 count, 6 b0, 7 cp, 8 n, 9 at
    let mut e = Emitter::new(Ghost(10int), Ghost(realloc_index));
    each_open(&mut e, 2, 1);
    e.op(Instr::LocalGet(0));
    e.op(Instr::LocalGet(2));
    e.op(Instr::I32Add);
    e.op(Instr::I32Load8U(0));
    e.op(Instr::I32Const(0xC0));
    e.op(Instr::I32And);
    e.op(Instr::I32Const(0x80));
    e.op(Instr::I32Ne);
    e.op(Instr::LocalGet(5));
    e.op(Instr::I32Add);
    e.op(Instr::LocalSet(5));
    each_close(&mut e, 2);
    alloc_open(&mut e, 8);
    e.op(Instr::LocalGet(5));
    e.op(Instr::I32Const(8));
    e.op(Instr::I32Mul);
    alloc_close(&mut e, realloc_index, 4);
    e.op(Instr::I32Const(0));
    e.op(Instr::LocalSet(2));
    e.op(Instr::Block);
    e.op(Instr::Loop);
    e.op(Instr::LocalGet(2));
    e.op(Instr::LocalGet(1));
    e.op(Instr::I32GeU);
    e.op(Instr::BrIf(1));
    e.op(Instr::LocalGet(0));
    e.op(Instr::LocalGet(2));
    e.op(Instr::I32Add);
    e.op(Instr::LocalSet(9));
    decode_utf8(&mut e, 9, 6, 7, 8);
    e.op(Instr::LocalGet(4));
    e.op(Instr::LocalGet(3));
    e.op(Instr::I32Const(8));
    e.op(Instr::I32Mul);
    e.op(Instr::I32Add);
    e.op(Instr::LocalGet(7));
    e.op(Instr::I64ExtendI32U);
    e.op(Instr::I64Store(0));
    e.op(Instr::LocalGet(2));
    e.op(Instr::LocalGet(8));
    e.op(Instr::I32Add);
    e.op(Instr::LocalSet(2));
    increment(&mut e, 3);
    e.op(Instr::Br(0));
    e.op(Instr::End);
    e.op(Instr::End);
    e.op(Instr::LocalGet(4));
    e.op(Instr::LocalGet(5));
    e.op(Instr::End);
    let mut locals: Vec<(u32, ValKind)> = Vec::new();
    declare(&mut locals, 8, ValKind::I32);
    proof {
        lemma_finished(&e);
    }
    HelperCode { locals, ops: e.ops }
}

/// Load the `k`-th code point of the list at `lp` into `cp` (an `i64`).
fn code_point(e: &mut Emitter)
    requires
        old(e).ok(),
        old(e).open() >= 1,
        8 <= old(e).n@,
    ensures
        final(e).ops@ == code_point_ops(old(e).ops@),
        kept(*old(e), *final(e)),
        final(e).open() == old(e).open(),
{
    e.op(Instr::LocalGet(0));
    e.op(Instr::LocalGet(2));
    e.op(Instr::I32Const(8));
    e.op(Instr::I32Mul);
    e.op(Instr::I32Add);
    e.op(Instr::I64Load(0));
    e.op(Instr::LocalSet(7));
}

/// `(ptr, len) -> (p, l)`: UTF-8 from a list of code points; a value that
/// is no Unicode scalar value traps.
fn from_codepoints_code(realloc_index: u32) -> (r: HelperCode)
    ensures
        r.ops@ == from_codepoints_ops(realloc_index),
        r.locals@ == helper_locals(Helper::FromCodepoints),
        helper_code_ok(Helper::FromCodepoints, r, realloc_index),
{
    // params 0 lp, 1 ll; locals 2 i, 3 bytes, 4 c, 5 out, 6 cur; 7 cp (i64)
    let mut e = Emitter::new(Ghost(8int), Ghost(realloc_index));
    // Pass 1: every value a scalar value, and the byte count.
    each_open(&mut e, 2, 1);
    code_point(&mut e);
    e.op(Instr::LocalGet(7));
    e.op(Instr::I64Const(0));
    e.op(Instr::I64LtS);
    e.op(Instr::LocalGet(7));
    e.op(Instr::I64Const(0x10FFFF));
    e.op(Instr::I64GtS);
    e.op(Instr::I32Or);
    e.op(Instr::LocalGet(7));
    e.op(Instr::I64Const(0xD800));
    e.op(Instr::I64GeS);
    e.op(Instr::LocalGet(7));
    e.op(Instr::I64Const(0xDFFF));
    e.op(Instr::I64LeS);
    e.op(Instr::I32And);
    e.op(Instr::I32Or);
    e.op(Instr::If);
    e.op(Instr::Unreachable);
    e.op(Instr::End);
    e.op(Instr::LocalGet(7));
    e.op(Instr::I32WrapI64);
    e.op(Instr::LocalSet(4));
    // bytes += 1 + (c >= 0x80) + (c >= 0x800) + (c >= 0x10000)
    e.op(Instr::LocalGet(3));
    e.op(Instr::I32Const(1));
    e.op(Instr::I32Add);
    e.op(Instr::LocalGet(4));
    e.op(Instr::I32Const(0x80));
    e.op(Instr::I32GeU);
    e.op(Instr::I32Add);
    e.op(Instr::LocalGet(4));
    e.op(Instr::I32Const(0x800));
    e.op(Instr::I32GeU);
    e.op(Instr::I32Add);
    e.op(Instr::LocalGet(4));
    e.op(Instr::I32Const(0x10000));
    e.op(Instr::I32GeU);
    e.op(Instr::I32Add);
    e.op(Instr::LocalSet(3));
    each_close(&mut e, 2);
    alloc_open(&mut e, 1);
    e.op(Instr::LocalGet(3));
    alloc_close(&mut e, realloc_index, 5);
    e.op(Instr::LocalGet(5));
    e.op(Instr::LocalSet(6));
    // Pass 2: encode.
    each_open(&mut e, 2, 1);
    code_point(&mut e);
    e.op(Instr::LocalGet(7));
    e.op(Instr::I32WrapI64);
    e.op(Instr::LocalSet(4));
    encode_utf8(&mut e, 6, 4);
    each_close(&mut e, 2);
    e.op(Instr::LocalGet(5));
    e.op(Instr::LocalGet(3));
    e.op(Instr::End);
    let mut locals: Vec<(u32, ValKind)> = Vec::new();
    declare(&mut locals, 5, ValKind::I32);
    declare(&mut locals, 1, ValKind::I64);
    proof {
        lemma_finished(&e);
    }
    HelperCode { locals, ops: e.ops }
}

/// `(p1, l1, p2, l2) -> 1 | 0`: whether the second string begins the first.
fn starts_with_code(realloc_index: u32) -> (r: HelperCode)
    ensures
        r.ops@ == starts_with_ops(realloc_index),
        r.locals@ == helper_locals(Helper::StartsWith),
        helper_code_ok(Helper::StartsWith, r, realloc_index),
{
    // params 0 p1, 1 l1, 2 p2, 3 l2; local 4 i
    let mut e = Emitter::new(Ghost(5int), Ghost(realloc_index));
    e.op(Instr::LocalGet(3));
    e.op(Instr::LocalGet(1));
    e.op(Instr::I32GtU);
    e.op(Instr::If);
    e.op(Instr::I32Const(0));
    e.op(Instr::Return);
    e.op(Instr::End);
    each_open(&mut e, 4, 3);
    bytes_differ(&mut e, 0, 2, 4);
    e.op(Instr::If);
    e.op(Instr::I32Const(0));
    e.op(Instr::Return);
    e.op(Instr::End);
    each_close(&mut e, 4);
    e.op(Instr::I32Const(1));
    e.op(Instr::End);
    let mut locals: Vec<(u32, ValKind)> = Vec::new();
    declare(&mut locals, 1, ValKind::I32);
    proof {
        lemma_finished(&e);
    }
    HelperCode { locals, ops: e.ops }
}

/// `(p1, l1, p2, l2) -> 1 | 0`: whether the second string ends the first.
fn ends_with_code(realloc_index: u32) -> (r: HelperCode)
    ensures
        r.ops@ == ends_with_ops(realloc_index),
        r.locals@ == helper_locals(Helper::EndsWith),
        helper_code_ok(Helper::EndsWith, r, realloc_index),
{
    // params 0 p1, 1 l1, 2 p2, 3 l2; locals 4 i, 5 base
    let mut e = Emitter::new(Ghost(6int), Ghost(realloc_index));
    e.op(Instr::LocalGet(3));
    e.op(Instr::LocalGet(1));
    e.op(Instr::I32GtU);
    e.op(Instr::If);
    e.op(Instr::I32Const(0));
    e.op(Instr::Return);
    e.op(Instr::End);
    e.op(Instr::LocalGet(0));
    e.op(Instr::LocalGet(1));
    e.op(Instr::I32Add);
    e.op(Instr::LocalGet(3));
    e.op(Instr::I32Sub);
    e.op(Instr::LocalSet(5));
    each_open(&mut e, 4, 3);
    bytes_differ(&mut e, 5, 2, 4);
    e.op(Instr::If);
    e.op(Instr::I32Const(0));
    e.op(Instr::Return);
    e.op(Instr::End);
    each_close(&mut e, 4);
    e.op(Instr::I32Const(1));
    e.op(Instr::End);
    let mut locals: Vec<(u32, ValKind)> = Vec::new();
    declare(&mut locals, 2, ValKind::I32);
    proof {
        lemma_finished(&e);
    }
    HelperCode { locals, ops: e.ops }
}

/// `(p1, l1, p2, l2) -> 1 | 0`: whether the second string occurs in the
/// first.
fn contains_code(realloc_index: u32) -> (r: HelperCode)
    ensures
        r.ops@ == contains_ops(realloc_index),
        r.locals@ == helper_locals(Helper::Contains),
        helper_code_ok(Helper::Contains, r, realloc_index),
{
    // params 0 p1, 1 l1, 2 p2, 3 l2; locals 4 start, 5 i, 6 last, 7 here
    let mut e = Emitter::new(Ghost(8int), Ghost(realloc_index));
    e.op(Instr::LocalGet(3));
    e.op(Instr::LocalGet(1));
    e.op(Instr::I32GtU);
    e.op(Instr::If);
    e.op(Instr::I32Const(0));
    e.op(Instr::Return);
    e.op(Instr::End);
    e.op(Instr::LocalGet(1));
    e.op(Instr::LocalGet(3));
    e.op(Instr::I32Sub);
    e.op(Instr::LocalSet(6));
    e.op(Instr::I32Const(0));
    e.op(Instr::LocalSet(4));
    e.op(Instr::Block);
    e.op(Instr::Loop);
    e.op(Instr::LocalGet(4));
    e.op(Instr::LocalGet(6));
    e.op(Instr::I32GtU);
    e.op(Instr::BrIf(1));
    e.op(Instr::LocalGet(0));
    e.op(Instr::LocalGet(4));
    e.op(Instr::I32Add);
    e.op(Instr::LocalSet(7));
    e.op(Instr::I32Const(0));
    e.op(Instr::LocalSet(5));
    e.op(Instr::Block);
    e.op(Instr::Loop);
    e.op(Instr::LocalGet(5));
    e.op(Instr::LocalGet(3));
    e.op(Instr::I32GeU);
    e.op(Instr::If);
    e.op(Instr::I32Const(1));
    e.op(Instr::Return);
    e.op(Instr::End);
    bytes_differ(&mut e, 7, 2, 5);
    e.op(Instr::BrIf(1));
    increment(&mut e, 5);
    e.op(Instr::Br(0));
    e.op(Instr::End);
    e.op(Instr::End);
    increment(&mut e, 4);
    e.op(Instr::Br(0));
    e.op(Instr::End);
    e.op(Instr::End);
    e.op(Instr::I32Const(0));
    e.op(Instr::End);
    let mut locals: Vec<(u32, ValKind)> = Vec::new();
    declare(&mut locals, 4, ValKind::I32);
    proof {
        lemma_finished(&e);
    }
    HelperCode { locals, ops: e.ops }
}

/// Load the word at `field` of the `i`-th element of the list at `lp`
/// into `into`.
fn element(e: &mut Emitter, field: u64, into: u32)
    requires
        old(e).ok(),
        old(e).open() >= 1,
        5 <= old(e).n@,
        into < old(e).n@,
    ensures
        final(e).ops@ == element_ops(old(e).ops@, field, into),
        kept(*old(e), *final(e)),
        final(e).open() == old(e).open(),
{
    e.op(Instr::LocalGet(0));
    e.op(Instr::LocalGet(4));
    e.op(Instr::I32Const(8));
    e.op(Instr::I32Mul);
    e.op(Instr::I32Add);
    e.op(Instr::I32Load(field));
    e.op(Instr::LocalSet(into));
}

/// `(list_ptr, list_len, sep_p, sep_l) -> (p, l)`: the strings of the
/// list, the separator between each two.
fn join_code(realloc_index: u32) -> (r: HelperCode)
    ensures
        r.ops@ == join_ops(realloc_index),
        r.locals@ == helper_locals(Helper::Join),
        helper_code_ok(Helper::Join, r, realloc_index),
{
    // params 0 lp, 1 ll, 2 sp, 3 sl; locals 4 i, 5 out, 6 cur, 7 ep, 8 el, 9 total; 10 wide (i64)
    let mut e = Emitter::new(Ghost(11int), Ghost(realloc_index));
    // The total length, in 64 bits: the parts, and a separator between
    // each two.
    each_open(&mut e, 4, 1);
    element(&mut e, 4, 8);
    e.op(Instr::LocalGet(10));
    e.op(Instr::LocalGet(8));
    e.op(Instr::I64ExtendI32U);
    e.op(Instr::I64Add);
    e.op(Instr::LocalSet(10));
    each_close(&mut e, 4);
    e.op(Instr::LocalGet(1));
    e.op(Instr::If);
    e.op(Instr::LocalGet(10));
    e.op(Instr::LocalGet(3));
    e.op(Instr::I64ExtendI32U);
    e.op(Instr::LocalGet(1));
    e.op(Instr::I32Const(1));
    e.op(Instr::I32Sub);
    e.op(Instr::I64ExtendI32U);
    e.op(Instr::I64Mul);
    e.op(Instr::I64Add);
    e.op(Instr::LocalSet(10));
    e.op(Instr::End);
    e.op(Instr::LocalGet(10));
    e.op(Instr::I64Const(i32::MAX as i64));
    e.op(Instr::I64GtU);
    e.op(Instr::If);
    e.op(Instr::Unreachable);
    e.op(Instr::End);
    e.op(Instr::LocalGet(10));
    e.op(Instr::I32WrapI64);
    e.op(Instr::LocalSet(9));
    alloc_open(&mut e, 1);
    e.op(Instr::LocalGet(9));
    alloc_close(&mut e, realloc_index, 5);
    e.op(Instr::LocalGet(5));
    e.op(Instr::LocalSet(6));
    each_open(&mut e, 4, 1);
    e.op(Instr::LocalGet(4));
    e.op(Instr::If);
    e.op(Instr::LocalGet(6));
    e.op(Instr::LocalGet(2));
    e.op(Instr::LocalGet(3));
    e.op(Instr::MemoryCopy);
    e.op(Instr::LocalGet(6));
    e.op(Instr::LocalGet(3));
    e.op(Instr::I32Add);
    e.op(Instr::LocalSet(6));
    e.op(Instr::End);
    element(&mut e, 0, 7);
    element(&mut e, 4, 8);
    e.op(Instr::LocalGet(6));
    e.op(Instr::LocalGet(7));
    e.op(Instr::LocalGet(8));
    e.op(Instr::MemoryCopy);
    e.op(Instr::LocalGet(6));
    e.op(Instr::LocalGet(8));
    e.op(Instr::I32Add);
    e.op(Instr::LocalSet(6));
    each_close(&mut e, 4);
    e.op(Instr::LocalGet(5));
    e.op(Instr::LocalGet(9));
    e.op(Instr::End);
    let mut locals: Vec<(u32, ValKind)> = Vec::new();
    declare(&mut locals, 6, ValKind::I32);
    declare(&mut locals, 1, ValKind::I64);
    proof {
        lemma_finished(&e);
    }
    HelperCode { locals, ops: e.ops }
}

/// `(p, l) -> (p', l')`: a view of the string without white space at
/// either end.
#[verifier::rlimit(40)]
fn trim_code(realloc_index: u32) -> (r: HelperCode)
    ensures
        r.ops@ == trim_ops(realloc_index),
        r.locals@ == helper_locals(Helper::Trim),
        helper_code_ok(Helper::Trim, r, realloc_index),
{
    // params 0 p, 1 l; locals 2 start, 3 end, 4 cp, 5 n, 6 b0, 7 at, 8 k
    let mut e = Emitter::new(Ghost(9int), Ghost(realloc_index));
    e.op(Instr::I32Const(0));
    e.op(Instr::LocalSet(2));
    e.op(Instr::Block);
    e.op(Instr::Loop);
    e.op(Instr::LocalGet(2));
    e.op(Instr::LocalGet(1));
    e.op(Instr::I32GeU);
    e.op(Instr::BrIf(1));
    e.op(Instr::LocalGet(0));
    e.op(Instr::LocalGet(2));
    e.op(Instr::I32Add);
    e.op(Instr::LocalSet(7));
    decode_utf8(&mut e, 7, 6, 4, 5);
    white_space(&mut e, 4);
    e.op(Instr::I32Eqz);
    e.op(Instr::BrIf(1));
    e.op(Instr::LocalGet(2));
    e.op(Instr::LocalGet(5));
    e.op(Instr::I32Add);
    e.op(Instr::LocalSet(2));
    e.op(Instr::Br(0));
    e.op(Instr::End);
    e.op(Instr::End);
    e.op(Instr::LocalGet(1));
    e.op(Instr::LocalSet(3));
    e.op(Instr::Block);
    e.op(Instr::Loop);
    e.op(Instr::LocalGet(3));
    e.op(Instr::LocalGet(2));
    e.op(Instr::I32LeU);
    e.op(Instr::BrIf(1));
    // The last code point starts at the last byte that is not a
    // continuation byte.
    e.op(Instr::LocalGet(3));
    e.op(Instr::I32Const(1));
    e.op(Instr::I32Sub);
    e.op(Instr::LocalSet(8));
    e.op(Instr::Block);
    e.op(Instr::Loop);
    e.op(Instr::LocalGet(0));
    e.op(Instr::LocalGet(8));
    e.op(Instr::I32Add);
    e.op(Instr::I32Load8U(0));
    e.op(Instr::I32Const(0xC0));
    e.op(Instr::I32And);
    e.op(Instr::I32Const(0x80));
    e.op(Instr::I32Ne);
    e.op(Instr::BrIf(1));
    e.op(Instr::LocalGet(8));
    e.op(Instr::I32Const(1));
    e.op(Instr::I32Sub);
    e.op(Instr::LocalSet(8));
    e.op(Instr::Br(0));
    e.op(Instr::End);
    e.op(Instr::End);
    e.op(Instr::LocalGet(0));
    e.op(Instr::LocalGet(8));
    e.op(Instr::I32Add);
    e.op(Instr::LocalSet(7));
    decode_utf8(&mut e, 7, 6, 4, 5);
    white_space(&mut e, 4);
    e.op(Instr::I32Eqz);
    e.op(Instr::BrIf(1));
    e.op(Instr::LocalGet(8));
    e.op(Instr::LocalSet(3));
    e.op(Instr::Br(0));
    e.op(Instr::End);
    e.op(Instr::End);
    // A view of the same bytes.
    e.op(Instr::LocalGet(0));
    e.op(Instr::LocalGet(2));
    e.op(Instr::I32Add);
    e.op(Instr::LocalGet(3));
    e.op(Instr::LocalGet(2));
    e.op(Instr::I32Sub);
    e.op(Instr::End);
    let mut locals: Vec<(u32, ValKind)> = Vec::new();
    declare(&mut locals, 7, ValKind::I32);
    proof {
        lemma_finished(&e);
    }
    HelperCode { locals, ops: e.ops }
}

/// `(p, l) -> (p', l')`: a copy of the string with `A`-`Z` as `a`-`z`.
fn lower_ascii_code(realloc_index: u32) -> (r: HelperCode)
    ensures
        r.ops@ == lower_ascii_ops(realloc_index),
        r.locals@ == helper_locals(Helper::LowerAscii),
        helper_code_ok(Helper::LowerAscii, r, realloc_index),
{
    // params 0 p, 1 l; locals 2 i, 3 out, 4 b
    let mut e = Emitter::new(Ghost(5int), Ghost(realloc_index));
    alloc_open(&mut e, 1);
    e.op(Instr::LocalGet(1));
    alloc_close(&mut e, realloc_index, 3);
    each_open(&mut e, 2, 1);
    e.op(Instr::LocalGet(3));
    e.op(Instr::LocalGet(2));
    e.op(Instr::I32Add);
    e.op(Instr::LocalGet(0));
    e.op(Instr::LocalGet(2));
    e.op(Instr::I32Add);
    e.op(Instr::I32Load8U(0));
    e.op(Instr::LocalTee(4));
    // b + 32 for `A`..=`Z`: (b - 65) < 26 is 1 or 0, times 32.
    e.op(Instr::LocalGet(4));
    e.op(Instr::I32Const(65));
    e.op(Instr::I32Sub);
    e.op(Instr::I32Const(26));
    e.op(Instr::I32LtU);
    e.op(Instr::I32Const(5));
    e.op(Instr::I32Shl);
    e.op(Instr::I32Add);
    e.op(Instr::I32Store8(0));
    each_close(&mut e, 2);
    e.op(Instr::LocalGet(3));
    e.op(Instr::LocalGet(1));
    e.op(Instr::End);
    let mut locals: Vec<(u32, ValKind)> = Vec::new();
    declare(&mut locals, 3, ValKind::I32);
    proof {
        lemma_finished(&e);
    }
    HelperCode { locals, ops: e.ops }
}

/// `bound = max(bound, 0)` on an `i64` local.
fn clamp_at_zero(e: &mut Emitter, bound: u32)
    requires
        old(e).ok(),
        old(e).open() >= 1,
        bound < old(e).n@,
    ensures
        final(e).ops@ == clamp_at_zero_ops(old(e).ops@, bound),
        kept(*old(e), *final(e)),
        final(e).open() == old(e).open(),
{
    e.op(Instr::LocalGet(bound));
    e.op(Instr::I64Const(0));
    e.op(Instr::LocalGet(bound));
    e.op(Instr::I64Const(0));
    e.op(Instr::I64GtS);
    e.op(Instr::Select);
    e.op(Instr::LocalSet(bound));
}

/// At a code point's first byte, when `cp` is `bound`, keep the byte's
/// index in `into`.
fn at_bound(e: &mut Emitter, bound: u32, into: u32)
    requires
        old(e).ok(),
        old(e).open() >= 1,
        6 <= old(e).n@,
        bound < old(e).n@,
        into < old(e).n@,
    ensures
        final(e).ops@ == at_bound_ops(old(e).ops@, bound, into),
        kept(*old(e), *final(e)),
        final(e).open() == old(e).open(),
{
    e.op(Instr::LocalGet(5));
    e.op(Instr::LocalGet(bound));
    e.op(Instr::I64Eq);
    e.op(Instr::If);
    e.op(Instr::LocalGet(4));
    e.op(Instr::LocalSet(into));
    e.op(Instr::End);
}

/// `(p, l, start, end) -> (p', l')`: a view of code points `start` up to
/// `end`. Each bound below zero is zero, and one past the last code point
/// is the string's end.
fn slice_code(realloc_index: u32) -> (r: HelperCode)
    ensures
        r.ops@ == slice_ops(realloc_index),
        r.locals@ == helper_locals(Helper::Slice),
        helper_code_ok(Helper::Slice, r, realloc_index),
{
    // params 0 p, 1 l, 2 start (i64), 3 end (i64); locals 4 i, 5 cp (i64),
    // 6 from, 7 to.
    let mut e = Emitter::new(Ghost(8int), Ghost(realloc_index));
    clamp_at_zero(&mut e, 2);
    clamp_at_zero(&mut e, 3);
    e.op(Instr::LocalGet(1));
    e.op(Instr::LocalSet(6));
    e.op(Instr::LocalGet(1));
    e.op(Instr::LocalSet(7));
    each_open(&mut e, 4, 1);
    // At each code point's first byte, `cp` is its index.
    e.op(Instr::LocalGet(0));
    e.op(Instr::LocalGet(4));
    e.op(Instr::I32Add);
    e.op(Instr::I32Load8U(0));
    e.op(Instr::I32Const(0xC0));
    e.op(Instr::I32And);
    e.op(Instr::I32Const(0x80));
    e.op(Instr::I32Ne);
    e.op(Instr::If);
    at_bound(&mut e, 2, 6);
    at_bound(&mut e, 3, 7);
    e.op(Instr::LocalGet(5));
    e.op(Instr::I64Const(1));
    e.op(Instr::I64Add);
    e.op(Instr::LocalSet(5));
    e.op(Instr::End);
    each_close(&mut e, 4);
    // An end before the start is the start: "".
    e.op(Instr::LocalGet(7));
    e.op(Instr::LocalGet(6));
    e.op(Instr::LocalGet(7));
    e.op(Instr::LocalGet(6));
    e.op(Instr::I32GtU);
    e.op(Instr::Select);
    e.op(Instr::LocalSet(7));
    e.op(Instr::LocalGet(0));
    e.op(Instr::LocalGet(6));
    e.op(Instr::I32Add);
    e.op(Instr::LocalGet(7));
    e.op(Instr::LocalGet(6));
    e.op(Instr::I32Sub);
    e.op(Instr::End);
    let mut locals: Vec<(u32, ValKind)> = Vec::new();
    declare(&mut locals, 1, ValKind::I32);
    declare(&mut locals, 1, ValKind::I64);
    declare(&mut locals, 2, ValKind::I32);
    proof {
        lemma_finished(&e);
    }
    HelperCode { locals, ops: e.ops }
}

/// `lo` = how many of the `count` sixteen-byte entries at `base` come
/// before `cp`: their first word below it or, `inclusive`, not above it.
/// A binary search over locals 13 `lo`, 14 `hi` and 15 `mid`.
fn search(e: &mut Emitter, base: u32, count: u32, inclusive: bool)
    requires
        old(e).ok(),
        old(e).open() >= 1,
        16 <= old(e).n@,
        base < old(e).n@,
        count < old(e).n@,
    ensures
        final(e).ops@ == search_ops(old(e).ops@, base, count, inclusive),
        kept(*old(e), *final(e)),
        final(e).open() == old(e).open(),
{
    e.op(Instr::I32Const(0));
    e.op(Instr::LocalSet(13));
    e.op(Instr::LocalGet(count));
    e.op(Instr::LocalSet(14));
    e.op(Instr::Block);
    e.op(Instr::Loop);
    e.op(Instr::LocalGet(13));
    e.op(Instr::LocalGet(14));
    e.op(Instr::I32GeU);
    e.op(Instr::BrIf(1));
    e.op(Instr::LocalGet(13));
    e.op(Instr::LocalGet(14));
    e.op(Instr::I32Add);
    e.op(Instr::I32Const(1));
    e.op(Instr::I32ShrU);
    e.op(Instr::LocalSet(15));
    e.op(Instr::LocalGet(base));
    e.op(Instr::LocalGet(15));
    e.op(Instr::I32Const(4));
    e.op(Instr::I32Shl);
    e.op(Instr::I32Add);
    e.op(Instr::I32Load(0));
    e.op(Instr::LocalGet(10));
    if inclusive {
        e.op(Instr::I32LeU);
    } else {
        e.op(Instr::I32LtU);
    }
    e.op(Instr::If);
    e.op(Instr::LocalGet(15));
    e.op(Instr::I32Const(1));
    e.op(Instr::I32Add);
    e.op(Instr::LocalSet(13));
    e.op(Instr::Else);
    e.op(Instr::LocalGet(15));
    e.op(Instr::LocalSet(14));
    e.op(Instr::End);
    e.op(Instr::Br(0));
    e.op(Instr::End);
    e.op(Instr::End);
}

/// The code point in the word at `offset` of the entry in local 16, unless
/// it is zero, which leaves the enclosing block: encode it at `at`.
fn multi_unit(e: &mut Emitter, offset: u64)
    requires
        old(e).ok(),
        old(e).open() >= 1,
        18 <= old(e).n@,
    ensures
        final(e).ops@ == multi_unit_ops(old(e).ops@, offset),
        kept(*old(e), *final(e)),
        final(e).open() == old(e).open(),
{
    e.op(Instr::LocalGet(16));
    e.op(Instr::I32Load(offset));
    e.op(Instr::LocalTee(17));
    e.op(Instr::I32Eqz);
    e.op(Instr::BrIf(0));
    encode_utf8(e, 8, 17);
}

/// `(p, l, ranges, ranges', multi, multi') -> (p', l')`: each code point
/// mapped by the case tables: a code point with an entry in `multi` becomes
/// the up to three it lists; one in a range of `ranges` that its stride
/// reaches moves by the range's delta; any other stays. The output is
/// allocated at `growth` bytes for each input byte.
#[verifier::rlimit(40)]
fn case_map_code(realloc_index: u32, growth: i32) -> (r: HelperCode)
    ensures
        r.ops@ == case_map_ops(realloc_index, growth),
        r.locals@ == helper_locals(Helper::CaseMap),
        helper_code_ok(Helper::CaseMap, r, realloc_index),
{
    // params 0 p, 1 l, 2 ranges, 3 ranges', 4 multi, 5 multi'; locals
    // 6 i, 7 out, 8 at (the output's end), 9 b0, 10 cp, 11 n, 12 from,
    // 13 lo, 14 hi, 15 mid, 16 entry, 17 c. Each entry is 16 bytes, its
    // first word the code point it is found by.
    let mut e = Emitter::new(Ghost(18int), Ghost(realloc_index));
    alloc_open(&mut e, 1);
    e.op(Instr::LocalGet(1));
    e.op(Instr::I32Const(growth));
    e.op(Instr::I32Mul);
    alloc_close(&mut e, realloc_index, 7);
    e.op(Instr::LocalGet(7));
    e.op(Instr::LocalSet(8));
    e.op(Instr::I32Const(0));
    e.op(Instr::LocalSet(6));
    e.op(Instr::Block);
    e.op(Instr::Loop);
    e.op(Instr::LocalGet(6));
    e.op(Instr::LocalGet(1));
    e.op(Instr::I32GeU);
    e.op(Instr::BrIf(1));
    e.op(Instr::LocalGet(0));
    e.op(Instr::LocalGet(6));
    e.op(Instr::I32Add);
    e.op(Instr::LocalSet(12));
    decode_utf8(&mut e, 12, 9, 10, 11);
    e.op(Instr::LocalGet(6));
    e.op(Instr::LocalGet(11));
    e.op(Instr::I32Add);
    e.op(Instr::LocalSet(6));
    // A code point that maps to more than one: up to three, the first zero
    // ending them. Then the next code point.
    search(&mut e, 4, 5, false);
    e.op(Instr::LocalGet(13));
    e.op(Instr::LocalGet(5));
    e.op(Instr::I32LtU);
    e.op(Instr::If);
    e.op(Instr::LocalGet(4));
    e.op(Instr::LocalGet(13));
    e.op(Instr::I32Const(4));
    e.op(Instr::I32Shl);
    e.op(Instr::I32Add);
    e.op(Instr::LocalTee(16));
    e.op(Instr::I32Load(0));
    e.op(Instr::LocalGet(10));
    e.op(Instr::I32Eq);
    e.op(Instr::If);
    e.op(Instr::Block);
    multi_unit(&mut e, 4);
    multi_unit(&mut e, 8);
    multi_unit(&mut e, 12);
    e.op(Instr::End);
    e.op(Instr::Br(2));
    e.op(Instr::End);
    e.op(Instr::End);
    // Otherwise the last range starting at or before it, if it covers it
    // on its stride; else it is itself.
    search(&mut e, 2, 3, true);
    e.op(Instr::LocalGet(10));
    e.op(Instr::LocalSet(17));
    e.op(Instr::LocalGet(13));
    e.op(Instr::If);
    e.op(Instr::LocalGet(2));
    e.op(Instr::LocalGet(13));
    e.op(Instr::I32Const(1));
    e.op(Instr::I32Sub);
    e.op(Instr::I32Const(4));
    e.op(Instr::I32Shl);
    e.op(Instr::I32Add);
    e.op(Instr::LocalSet(16));
    e.op(Instr::LocalGet(10));
    e.op(Instr::LocalGet(16));
    e.op(Instr::I32Load(4));
    e.op(Instr::I32LeU);
    e.op(Instr::If);
    e.op(Instr::LocalGet(10));
    e.op(Instr::LocalGet(16));
    e.op(Instr::I32Load(0));
    e.op(Instr::I32Sub);
    e.op(Instr::LocalGet(16));
    e.op(Instr::I32Load(12));
    e.op(Instr::I32RemU);
    e.op(Instr::I32Eqz);
    e.op(Instr::If);
    e.op(Instr::LocalGet(10));
    e.op(Instr::LocalGet(16));
    e.op(Instr::I32Load(8));
    e.op(Instr::I32Add);
    e.op(Instr::LocalSet(17));
    e.op(Instr::End);
    e.op(Instr::End);
    e.op(Instr::End);
    encode_utf8(&mut e, 8, 17);
    e.op(Instr::Br(0));
    e.op(Instr::End);
    e.op(Instr::End);
    e.op(Instr::LocalGet(7));
    e.op(Instr::LocalGet(8));
    e.op(Instr::LocalGet(7));
    e.op(Instr::I32Sub);
    e.op(Instr::End);
    let mut locals: Vec<(u32, ValKind)> = Vec::new();
    declare(&mut locals, 12, ValKind::I32);
    proof {
        lemma_finished(&e);
    }
    HelperCode { locals, ops: e.ops }
}

/// The body of each string helper after the first three, as its extra
/// locals and its instructions. `growth` is how many output bytes one input
/// byte can become under the case tables; only `CaseMap` reads it.
pub fn string_helper(h: Helper, realloc_index: u32, growth: i32) -> (r: HelperCode)
    requires
        !(h is StrEq || h is StrCmp || h is IntToString),
    ensures
        r.ops@ == helper_ops(h, realloc_index, growth),
        r.locals@ == helper_locals(h),
        helper_code_ok(h, r, realloc_index),
{
    match h {
        Helper::Utf8Count => utf8_count_code(realloc_index),
        Helper::Codepoints => codepoints_code(realloc_index),
        Helper::FromCodepoints => from_codepoints_code(realloc_index),
        Helper::StartsWith => starts_with_code(realloc_index),
        Helper::EndsWith => ends_with_code(realloc_index),
        Helper::Contains => contains_code(realloc_index),
        Helper::Join => join_code(realloc_index),
        Helper::Trim => trim_code(realloc_index),
        Helper::LowerAscii => lower_ascii_code(realloc_index),
        Helper::Slice => slice_code(realloc_index),
        Helper::CaseMap => case_map_code(realloc_index, growth),
        Helper::StrEq | Helper::StrCmp | Helper::IntToString => {
            proof {
                assert(false);
            }
            HelperCode { locals: Vec::new(), ops: Vec::new() }
        }
    }
}

/// `(p1, l1, p2, l2) -> 1 | 0`: byte equality of two strings.
fn str_eq_code(realloc_index: u32) -> (r: HelperCode)
    ensures
        r.ops@ == str_eq_ops(realloc_index),
        r.locals@ == helper_locals(Helper::StrEq),
        helper_code_ok(Helper::StrEq, r, realloc_index),
{
    // params: 0 p1, 1 l1, 2 p2, 3 l2; local 4 i
    let mut e = Emitter::new(Ghost(5int), Ghost(realloc_index));
    e.op(Instr::LocalGet(1));
    e.op(Instr::LocalGet(3));
    e.op(Instr::I32Ne);
    e.op(Instr::If);
    e.op(Instr::I32Const(0));
    e.op(Instr::Return);
    e.op(Instr::End);
    e.op(Instr::Block);
    e.op(Instr::Loop);
    e.op(Instr::LocalGet(4));
    e.op(Instr::LocalGet(1));
    e.op(Instr::I32GeU);
    e.op(Instr::BrIf(1));
    e.op(Instr::LocalGet(0));
    e.op(Instr::LocalGet(4));
    e.op(Instr::I32Add);
    e.op(Instr::I32Load8U(0));
    e.op(Instr::LocalGet(2));
    e.op(Instr::LocalGet(4));
    e.op(Instr::I32Add);
    e.op(Instr::I32Load8U(0));
    e.op(Instr::I32Ne);
    e.op(Instr::If);
    e.op(Instr::I32Const(0));
    e.op(Instr::Return);
    e.op(Instr::End);
    e.op(Instr::LocalGet(4));
    e.op(Instr::I32Const(1));
    e.op(Instr::I32Add);
    e.op(Instr::LocalSet(4));
    e.op(Instr::Br(0));
    e.op(Instr::End);
    e.op(Instr::End);
    e.op(Instr::I32Const(1));
    e.op(Instr::End);
    let mut locals: Vec<(u32, ValKind)> = Vec::new();
    declare(&mut locals, 1, ValKind::I32);
    proof {
        lemma_finished(&e);
    }
    HelperCode { locals, ops: e.ops }
}

/// `(p1, l1, p2, l2) -> -1 | 0 | 1`: byte order of two strings.
fn str_cmp_code(realloc_index: u32) -> (r: HelperCode)
    ensures
        r.ops@ == str_cmp_ops(realloc_index),
        r.locals@ == helper_locals(Helper::StrCmp),
        helper_code_ok(Helper::StrCmp, r, realloc_index),
{
    // params: 0 p1, 1 l1, 2 p2, 3 l2; locals 4 i, 5 n, 6 a, 7 b
    let mut e = Emitter::new(Ghost(8int), Ghost(realloc_index));
    // n = min(l1, l2)
    e.op(Instr::LocalGet(1));
    e.op(Instr::LocalGet(3));
    e.op(Instr::LocalGet(1));
    e.op(Instr::LocalGet(3));
    e.op(Instr::I32LtU);
    e.op(Instr::Select);
    e.op(Instr::LocalSet(5));
    e.op(Instr::Block);
    e.op(Instr::Loop);
    e.op(Instr::LocalGet(4));
    e.op(Instr::LocalGet(5));
    e.op(Instr::I32GeU);
    e.op(Instr::BrIf(1));
    e.op(Instr::LocalGet(0));
    e.op(Instr::LocalGet(4));
    e.op(Instr::I32Add);
    e.op(Instr::I32Load8U(0));
    e.op(Instr::LocalSet(6));
    e.op(Instr::LocalGet(2));
    e.op(Instr::LocalGet(4));
    e.op(Instr::I32Add);
    e.op(Instr::I32Load8U(0));
    e.op(Instr::LocalSet(7));
    e.op(Instr::LocalGet(6));
    e.op(Instr::LocalGet(7));
    e.op(Instr::I32Ne);
    e.op(Instr::If);
    e.op(Instr::I32Const(-1i32));
    e.op(Instr::I32Const(1));
    e.op(Instr::LocalGet(6));
    e.op(Instr::LocalGet(7));
    e.op(Instr::I32LtU);
    e.op(Instr::Select);
    e.op(Instr::Return);
    e.op(Instr::End);
    e.op(Instr::LocalGet(4));
    e.op(Instr::I32Const(1));
    e.op(Instr::I32Add);
    e.op(Instr::LocalSet(4));
    e.op(Instr::Br(0));
    e.op(Instr::End);
    e.op(Instr::End);
    // A proper prefix orders first.
    e.op(Instr::LocalGet(1));
    e.op(Instr::LocalGet(3));
    e.op(Instr::I32LtU);
    e.op(Instr::If);
    e.op(Instr::I32Const(-1i32));
    e.op(Instr::Return);
    e.op(Instr::End);
    e.op(Instr::LocalGet(1));
    e.op(Instr::LocalGet(3));
    e.op(Instr::I32GtU);
    e.op(Instr::End);
    let mut locals: Vec<(u32, ValKind)> = Vec::new();
    declare(&mut locals, 4, ValKind::I32);
    proof {
        lemma_finished(&e);
    }
    HelperCode { locals, ops: e.ops }
}

/// `(i64) -> (ptr, len)`: the decimal text of a signed integer.
fn int_to_string_code(realloc_index: u32) -> (r: HelperCode)
    ensures
        r.ops@ == int_to_string_ops(realloc_index),
        r.locals@ == helper_locals(Helper::IntToString),
        helper_code_ok(Helper::IntToString, r, realloc_index),
{
    // param: 0 v; locals 1 end, 2 pos, 3 neg, 4 u (i64)
    let mut e = Emitter::new(Ghost(5int), Ghost(realloc_index));
    // 20 bytes hold "-9223372036854775808".
    e.op(Instr::I32Const(0));
    e.op(Instr::I32Const(0));
    e.op(Instr::I32Const(1));
    e.op(Instr::I32Const(20));
    e.op(Instr::Call(realloc_index));
    e.op(Instr::I32Const(20));
    e.op(Instr::I32Add);
    e.op(Instr::LocalTee(1));
    e.op(Instr::LocalSet(2));
    e.op(Instr::LocalGet(0));
    e.op(Instr::I64Const(0));
    e.op(Instr::I64LtS);
    e.op(Instr::LocalSet(3));
    // The magnitude, unsigned: `0 - MIN` wraps to 2^63, which
    // is MIN's magnitude read unsigned.
    e.op(Instr::I64Const(0));
    e.op(Instr::LocalGet(0));
    e.op(Instr::I64Sub);
    e.op(Instr::LocalGet(0));
    e.op(Instr::LocalGet(3));
    e.op(Instr::Select);
    e.op(Instr::LocalSet(4));
    e.op(Instr::Loop);
    e.op(Instr::LocalGet(2));
    e.op(Instr::I32Const(1));
    e.op(Instr::I32Sub);
    e.op(Instr::LocalTee(2));
    e.op(Instr::LocalGet(4));
    e.op(Instr::I64Const(10));
    e.op(Instr::I64RemU);
    e.op(Instr::I32WrapI64);
    e.op(Instr::I32Const(48));
    e.op(Instr::I32Add);
    e.op(Instr::I32Store8(0));
    e.op(Instr::LocalGet(4));
    e.op(Instr::I64Const(10));
    e.op(Instr::I64DivU);
    e.op(Instr::LocalTee(4));
    e.op(Instr::I64Const(0));
    e.op(Instr::I64Ne);
    e.op(Instr::BrIf(0));
    e.op(Instr::End);
    e.op(Instr::LocalGet(3));
    e.op(Instr::If);
    e.op(Instr::LocalGet(2));
    e.op(Instr::I32Const(1));
    e.op(Instr::I32Sub);
    e.op(Instr::LocalTee(2));
    e.op(Instr::I32Const(45));
    e.op(Instr::I32Store8(0));
    e.op(Instr::End);
    e.op(Instr::LocalGet(2));
    e.op(Instr::LocalGet(1));
    e.op(Instr::LocalGet(2));
    e.op(Instr::I32Sub);
    e.op(Instr::End);
    let mut locals: Vec<(u32, ValKind)> = Vec::new();
    declare(&mut locals, 3, ValKind::I32);
    declare(&mut locals, 1, ValKind::I64);
    proof {
        lemma_finished(&e);
    }
    HelperCode { locals, ops: e.ops }
}

impl Helper {
    /// The helper's body: its extra locals and its instructions, with
    /// `realloc_index` the allocator it calls and `growth` the case tables'
    /// bytes per input byte.
    pub fn body(self, realloc_index: u32, growth: i32) -> (r: HelperCode)
        ensures
            r.ops@ == helper_ops(self, realloc_index, growth),
            r.locals@ == helper_locals(self),
            helper_code_ok(self, r, realloc_index),
    {
        match self {
            Helper::StrEq => str_eq_code(realloc_index),
            Helper::StrCmp => str_cmp_code(realloc_index),
            Helper::IntToString => int_to_string_code(realloc_index),
            _ => string_helper(self, realloc_index, growth),
        }
    }
}

} // verus!
