//! Decoder for the JVM bytecode instruction stream.
//!
//! Variant opcodes (`iconst_0`, `aload_2`, ...) decode to one canonical
//! instruction with an explicit immediate. `tableswitch` and `lookupswitch`
//! skip 0-3 padding bytes so their operands start on a 4-byte boundary
//! relative to the code-array origin. Opcodes outside the instruction set
//! decode to `Unknown`, and decoding continues at the next byte.

use crate::codec::be_val;
use crate::codec::append_dec_u8;
use crate::codec::u16_at;
use crate::codec::u32_at;
use crate::codec::i8_at;
use crate::codec::i16_at;
use crate::codec::i32_at;
use crate::codec::dec_u8_seq;
use crate::codec::digit_char;
use crate::codec::i16_of_u16;
use crate::codec::i32_of_u32;
use crate::codec::i8_of_u8;
use crate::codec::read_i16_at;
use crate::codec::read_i32_at;
use crate::codec::read_i8_at;
use crate::codec::read_u16_at;
use crate::codec::read_u8_at;
use std::collections::HashMap;
use vstd::prelude::*;
use vstd::string::*;

verus! {

#[derive(Debug)]
pub enum Instruction {
    Aaload,
    Aastore,
    AconstNull,
    Aload { index: u8 },
    Anewarray { index: u16 },
    Areturn,
    Arraylength,
    Astore { index: u8 },
    Athrow,
    Baload,
    Bastore,
    Bipush { byte: i8 },
    Caload,
    Castore,
    Checkcast { index: u16 },
    D2f,
    D2i,
    D2l,
    Dadd,
    Daload,
    Dastore,
    Dcmpg,
    Dcmpl,
    Dconst0,
    Dconst1,
    Ddiv,
    Dload { index: u8 },
    Dmul,
    Dneg,
    Drem,
    Dreturn,
    Dstore { index: u8 },
    Dsub,
    Dup,
    DupX1,
    DupX2,
    Dup2,
    Dup2X1,
    Dup2X2,
    F2d,
    F2i,
    F2l,
    Fadd,
    Faload,
    Fastore,
    Fcmpg,
    Fcmpl,
    Fconst0,
    Fconst1,
    Fconst2,
    Fdiv,
    Fload { index: u8 },
    Fmul,
    Fneg,
    Frem,
    Freturn,
    Fstore { index: u8 },
    Fsub,
    Getfield { index: u16 },
    Getstatic { index: u16 },
    Goto { offset: i16 },
    GotoW { offset: i32 },
    I2b,
    I2c,
    I2d,
    I2f,
    I2l,
    I2s,
    Iadd,
    Iaload,
    Iand,
    Iastore,
    Iconst { value: i32 },
    Idiv,
    IfAcmpeq { offset: i16 },
    IfAcmpne { offset: i16 },
    IfIcmpeq { offset: i16 },
    IfIcmpne { offset: i16 },
    IfIcmplt { offset: i16 },
    IfIcmpge { offset: i16 },
    IfIcmpgt { offset: i16 },
    IfIcmple { offset: i16 },
    Ifeq { offset: i16 },
    Ifne { offset: i16 },
    Iflt { offset: i16 },
    Ifge { offset: i16 },
    Ifgt { offset: i16 },
    Ifle { offset: i16 },
    Ifnonnull { offset: i16 },
    Ifnull { offset: i16 },
    Iinc { index: u8, const_value: i8 },
    Iload { index: u8 },
    Imul,
    Ineg,
    Instanceof { index: u16 },
    Invokedynamic { index: u16 },
    Invokeinterface { index: u16, count: u8 },
    Invokespecial { index: u16 },
    Invokestatic { index: u16 },
    Invokevirtual { index: u16 },
    Ior,
    Irem,
    Ireturn,
    Ishl,
    Ishr,
    Istore { index: u8 },
    Isub,
    Iushr,
    Ixor,
    Jsr { offset: i16 },
    JsrW { offset: i32 },
    L2d,
    L2f,
    L2i,
    Ladd,
    Laload,
    Land,
    Lastore,
    Lcmp,
    Lconst0,
    Lconst1,
    Ldc { index: u8 },
    LdcW { index: u16 },
    Ldc2W { index: u16 },
    Ldiv,
    Lload { index: u8 },
    Lmul,
    Lneg,
    Lookupswitch { default_offset: i32, matches: HashMap<i32, i32> },
    Lor,
    Lrem,
    Lreturn,
    Lshl,
    Lshr,
    Lstore { index: u8 },
    Lsub,
    Lushr,
    Lxor,
    Monitorenter,
    Monitorexit,
    Multianewarray { index: u16, dimensions: u8 },
    New { index: u16 },
    Newarray { atype: u8 },
    Nop,
    Pop,
    Pop2,
    Putfield { index: u16 },
    Putstatic { index: u16 },
    Ret { index: u8 },
    Return,
    Saload,
    Sastore,
    Sipush { short: i16 },
    Swap,
    Tableswitch { default: i32, low: i32, high: i32, offsets: Vec<i32> },
    Wide(Box<WideInstruction>),
    Unknown { error: String },
}

#[derive(Debug, PartialEq, Eq, Structural, Clone, Copy)]
pub enum WideInstruction {
    Iload { index: u16 },
    Fload { index: u16 },
    Aload { index: u16 },
    Lload { index: u16 },
    Dload { index: u16 },
    Istore { index: u16 },
    Fstore { index: u16 },
    Astore { index: u16 },
    Lstore { index: u16 },
    Dstore { index: u16 },
    Ret { index: u16 },
    Iinc { index: u16, const_value: i16 },
}

/// Decoding a switch fails only when its operands run past the buffer end.
#[derive(Debug, PartialEq, Eq, Structural, Clone, Copy)]
pub enum InstructionReadError {
    Truncated,
}

/// Message carried by an `Unknown` instruction whose operands were cut off
/// by the end of the buffer.
pub open spec fn truncated_msg() -> Seq<char> {
    "Could not read instruction"@
}

/// Message carried by an `Unknown` instruction for an opcode outside the
/// instruction set.
pub open spec fn invalid_opcode_msg(op: u8) -> Seq<char> {
    "Invalid opcode: "@ + dec_u8_seq(op)
}

/// Message carried by an `Unknown` instruction for a `wide` prefix whose
/// inner opcode cannot be widened.
pub open spec fn invalid_wide_msg(op: u8) -> Seq<char> {
    "Invalid wide opcode: "@ + dec_u8_seq(op)
}

pub open spec fn is_truncated(r: Instruction) -> bool {
    r matches Instruction::Unknown { error } && error@ == truncated_msg()
}

pub open spec fn is_invalid_opcode(r: Instruction, op: u8) -> bool {
    r matches Instruction::Unknown { error } && error@ == invalid_opcode_msg(op)
}

pub open spec fn is_invalid_wide(r: Instruction, op: u8) -> bool {
    r matches Instruction::Unknown { error } && error@ == invalid_wide_msg(op)
}

/// Number of padding bytes that align a position to the next 4-byte boundary.
pub open spec fn switch_pad(after: int) -> int {
    (4 - (after % 4)) % 4
}

/// The switch-padding law: the first operand read of a `tableswitch` or
/// `lookupswitch` whose opcode byte ends at position `after` lands on a
/// 4-byte boundary relative to the code-array origin.
pub proof fn lemma_switch_alignment(after: int)
    requires
        after >= 0,
    ensures
        0 <= switch_pad(after) < 4,
        (after + switch_pad(after)) % 4 == 0,
{
}

/// Signed span of a `tableswitch`: `high - low + 1`, clamped at zero.
pub open spec fn ts_count(code: Seq<u8>, t: int) -> int {
    if i32_at(code, t + 8) >= i32_at(code, t + 4) {
        i32_at(code, t + 8) - i32_at(code, t + 4) + 1
    } else {
        0
    }
}

/// Whether all `tableswitch` operands starting after position `after` fit in
/// the buffer.
pub open spec fn table_switch_ok(code: Seq<u8>, after: int) -> bool {
    let t = after + switch_pad(after);
    &&& t + 12 <= code.len()
    &&& t + 12 + 4 * ts_count(code, t) <= code.len()
}

/// The instruction a well-formed `tableswitch` decodes to; a truncated one
/// decodes to `Unknown`.
pub open spec fn table_switch_has(code: Seq<u8>, after: int, r: Instruction) -> bool {
    let t = after + switch_pad(after);
    if table_switch_ok(code, after) {
        &&& r matches Instruction::Tableswitch { default, low, high, offsets }
        &&& default == i32_at(code, t)
        &&& low == i32_at(code, t + 4)
        &&& high == i32_at(code, t + 8)
        &&& offsets@ == Seq::new(ts_count(code, t) as nat, |k: int| i32_at(code, t + 12 + 4 * k))
    } else {
        is_truncated(r)
    }
}

/// Position just after a `tableswitch` whose opcode byte ends at `after`.
pub open spec fn table_switch_end(code: Seq<u8>, after: int) -> int {
    let t = after + switch_pad(after);
    if table_switch_ok(code, after) {
        t + 12 + 4 * ts_count(code, t)
    } else {
        code.len() as int
    }
}

/// Pair count of a `lookupswitch`: a negative `npairs` yields no pairs.
pub open spec fn lookup_np(code: Seq<u8>, t: int) -> int {
    if i32_at(code, t + 4) >= 0 {
        i32_at(code, t + 4) as int
    } else {
        0
    }
}

/// The match table of a `lookupswitch`: pairs are inserted in stream order,
/// so on duplicate keys the later entry wins.
pub open spec fn lookup_pairs(code: Seq<u8>, t: int, n: int) -> Map<i32, i32>
    decreases n,
{
    if n <= 0 {
        Map::empty()
    } else {
        lookup_pairs(code, t, n - 1).insert(
            i32_at(code, t + 8 + 8 * (n - 1)),
            i32_at(code, t + 8 + 8 * (n - 1) + 4),
        )
    }
}

/// Whether all `lookupswitch` operands starting after position `after` fit
/// in the buffer.
pub open spec fn lookup_switch_ok(code: Seq<u8>, after: int) -> bool {
    let t = after + switch_pad(after);
    &&& t + 8 <= code.len()
    &&& t + 8 + 8 * lookup_np(code, t) <= code.len()
}

/// The instruction a well-formed `lookupswitch` decodes to; a truncated one
/// decodes to `Unknown`.
pub open spec fn lookup_switch_has(code: Seq<u8>, after: int, r: Instruction) -> bool {
    let t = after + switch_pad(after);
    if lookup_switch_ok(code, after) {
        &&& r matches Instruction::Lookupswitch { default_offset, matches }
        &&& default_offset == i32_at(code, t)
        &&& matches@ == lookup_pairs(code, t, lookup_np(code, t))
    } else {
        is_truncated(r)
    }
}

/// Position just after a `lookupswitch` whose opcode byte ends at `after`.
pub open spec fn lookup_switch_end(code: Seq<u8>, after: int) -> int {
    let t = after + switch_pad(after);
    if lookup_switch_ok(code, after) {
        t + 8 + 8 * lookup_np(code, t)
    } else {
        code.len() as int
    }
}

/// Opcodes that `wide` widens to a 2-byte local-variable index.
pub open spec fn widenable_load_store(op: u8) -> bool {
    (0x15 <= op <= 0x19) || (0x36 <= op <= 0x3a) || op == 0xa9
}

/// The widened form of a load, store or `ret` opcode.
pub open spec fn wide_variant(inner: u8, idx: u16) -> WideInstruction {
    if inner == 0x15 {
        WideInstruction::Iload { index: idx }
    } else if inner == 0x16 {
        WideInstruction::Lload { index: idx }
    } else if inner == 0x17 {
        WideInstruction::Fload { index: idx }
    } else if inner == 0x18 {
        WideInstruction::Dload { index: idx }
    } else if inner == 0x19 {
        WideInstruction::Aload { index: idx }
    } else if inner == 0x36 {
        WideInstruction::Istore { index: idx }
    } else if inner == 0x37 {
        WideInstruction::Lstore { index: idx }
    } else if inner == 0x38 {
        WideInstruction::Fstore { index: idx }
    } else if inner == 0x39 {
        WideInstruction::Dstore { index: idx }
    } else if inner == 0x3a {
        WideInstruction::Astore { index: idx }
    } else {
        WideInstruction::Ret { index: idx }
    }
}

/// The instruction a `wide` prefix whose opcode byte ends at `after` decodes
/// to.
pub open spec fn wide_has(code: Seq<u8>, after: int, r: Instruction) -> bool {
    if after >= code.len() {
        is_truncated(r)
    } else {
        let inner = code[after];
        if inner == 0x84 {
            if after + 5 <= code.len() {
                r matches Instruction::Wide(w) && w == (WideInstruction::Iinc {
                    index: u16_at(code, after + 1),
                    const_value: i16_at(code, after + 3),
                })
            } else {
                is_truncated(r)
            }
        } else if widenable_load_store(inner) {
            if after + 3 <= code.len() {
                r matches Instruction::Wide(w) && w == wide_variant(inner, u16_at(code, after + 1))
            } else {
                is_truncated(r)
            }
        } else {
            is_invalid_wide(r, inner)
        }
    }
}

/// Position just after a `wide` instruction whose prefix byte ends at
/// `after`. An inner opcode that cannot be widened counts as consumed, and
/// decoding continues right after it.
pub open spec fn wide_end(code: Seq<u8>, after: int) -> int {
    if after >= code.len() {
        code.len() as int
    } else {
        let inner = code[after];
        if inner == 0x84 {
            if after + 5 <= code.len() {
                after + 5
            } else {
                code.len() as int
            }
        } else if widenable_load_store(inner) {
            if after + 3 <= code.len() {
                after + 3
            } else {
                code.len() as int
            }
        } else {
            after + 1
        }
    }
}

/// Position just after the instruction that starts at `pos`.
pub open spec fn instr_end(code: Seq<u8>, pos: int) -> int {
    let op = code[pos];
    if op == 0xaa {
        table_switch_end(code, pos + 1)
    } else if op == 0xab {
        lookup_switch_end(code, pos + 1)
    } else if op == 0xc4 {
        wide_end(code, pos + 1)
    } else {
        let k = operand_count(op);
        if k < 0 {
            pos + 1
        } else if pos + 1 + k <= code.len() {
            pos + 1 + k
        } else {
            code.len() as int
        }
    }
}

/// Every decode makes progress and stays within the buffer.
pub proof fn lemma_instr_end_bounds(code: Seq<u8>, pos: int)
    requires
        0 <= pos < code.len(),
    ensures
        pos < instr_end(code, pos) <= code.len(),
{
    let op = code[pos];
    if op == 0xaa {
        lemma_switch_alignment(pos + 1);
    } else if op == 0xab {
        lemma_switch_alignment(pos + 1);
    } else if op == 0xc4 {
    } else {
    }
}
/// Which instruction the bytes at `pos` decode to. An opcode outside the
/// instruction set decodes to `Unknown` with its numeric value named; an
/// opcode whose operands run past the end of the buffer decodes to
/// `Unknown` with a truncation message.
pub open spec fn instr_has(code: Seq<u8>, pos: int, r: Instruction) -> bool {
    let op = code[pos];
    if op == 0x00 {
        r == Instruction::Nop
    } else
    if op == 0x01 {
        r == Instruction::AconstNull
    } else
    if op == 0x02 {
        r == (Instruction::Iconst { value: -1i32 })
    } else
    if op == 0x03 {
        r == (Instruction::Iconst { value: 0 })
    } else
    if op == 0x04 {
        r == (Instruction::Iconst { value: 1 })
    } else
    if op == 0x05 {
        r == (Instruction::Iconst { value: 2 })
    } else
    if op == 0x06 {
        r == (Instruction::Iconst { value: 3 })
    } else
    if op == 0x07 {
        r == (Instruction::Iconst { value: 4 })
    } else
    if op == 0x08 {
        r == (Instruction::Iconst { value: 5 })
    } else
    if op == 0x09 {
        r == Instruction::Lconst0
    } else
    if op == 0x0a {
        r == Instruction::Lconst1
    } else
    if op == 0x0b {
        r == Instruction::Fconst0
    } else
    if op == 0x0c {
        r == Instruction::Fconst1
    } else
    if op == 0x0d {
        r == Instruction::Fconst2
    } else
    if op == 0x0e {
        r == Instruction::Dconst0
    } else
    if op == 0x0f {
        r == Instruction::Dconst1
    } else
    if op == 0x10 {
        if pos + 2 <= code.len() {
            r == (Instruction::Bipush { byte: i8_at(code, pos + 1) })
        } else {
            is_truncated(r)
        }
    } else
    if op == 0x11 {
        if pos + 3 <= code.len() {
            r == (Instruction::Sipush { short: i16_at(code, pos + 1) })
        } else {
            is_truncated(r)
        }
    } else
    if op == 0x12 {
        if pos + 2 <= code.len() {
            r == (Instruction::Ldc { index: code[pos + 1] })
        } else {
            is_truncated(r)
        }
    } else
    if op == 0x13 {
        if pos + 3 <= code.len() {
            r == (Instruction::LdcW { index: u16_at(code, pos + 1) })
        } else {
            is_truncated(r)
        }
    } else
    if op == 0x14 {
        if pos + 3 <= code.len() {
            r == (Instruction::Ldc2W { index: u16_at(code, pos + 1) })
        } else {
            is_truncated(r)
        }
    } else
    if op == 0x15 {
        if pos + 2 <= code.len() {
            r == (Instruction::Iload { index: code[pos + 1] })
        } else {
            is_truncated(r)
        }
    } else
    if op == 0x16 {
        if pos + 2 <= code.len() {
            r == (Instruction::Lload { index: code[pos + 1] })
        } else {
            is_truncated(r)
        }
    } else
    if op == 0x17 {
        if pos + 2 <= code.len() {
            r == (Instruction::Fload { index: code[pos + 1] })
        } else {
            is_truncated(r)
        }
    } else
    if op == 0x18 {
        if pos + 2 <= code.len() {
            r == (Instruction::Dload { index: code[pos + 1] })
        } else {
            is_truncated(r)
        }
    } else
    if op == 0x19 {
        if pos + 2 <= code.len() {
            r == (Instruction::Aload { index: code[pos + 1] })
        } else {
            is_truncated(r)
        }
    } else
    if op == 0x1a {
        r == (Instruction::Iload { index: 0 })
    } else
    if op == 0x1b {
        r == (Instruction::Iload { index: 1 })
    } else
    if op == 0x1c {
        r == (Instruction::Iload { index: 2 })
    } else
    if op == 0x1d {
        r == (Instruction::Iload { index: 3 })
    } else
    if op == 0x1e {
        r == (Instruction::Lload { index: 0 })
    } else
    if op == 0x1f {
        r == (Instruction::Lload { index: 1 })
    } else
    if op == 0x20 {
        r == (Instruction::Lload { index: 2 })
    } else
    if op == 0x21 {
        r == (Instruction::Lload { index: 3 })
    } else
    if op == 0x22 {
        r == (Instruction::Fload { index: 0 })
    } else
    if op == 0x23 {
        r == (Instruction::Fload { index: 1 })
    } else
    if op == 0x24 {
        r == (Instruction::Fload { index: 2 })
    } else
    if op == 0x25 {
        r == (Instruction::Fload { index: 3 })
    } else
    if op == 0x26 {
        r == (Instruction::Dload { index: 0 })
    } else
    if op == 0x27 {
        r == (Instruction::Dload { index: 1 })
    } else
    if op == 0x28 {
        r == (Instruction::Dload { index: 2 })
    } else
    if op == 0x29 {
        r == (Instruction::Dload { index: 3 })
    } else
    if op == 0x2a {
        r == (Instruction::Aload { index: 0 })
    } else
    if op == 0x2b {
        r == (Instruction::Aload { index: 1 })
    } else
    if op == 0x2c {
        r == (Instruction::Aload { index: 2 })
    } else
    if op == 0x2d {
        r == (Instruction::Aload { index: 3 })
    } else
    if op == 0x2e {
        r == Instruction::Iaload
    } else
    if op == 0x2f {
        r == Instruction::Laload
    } else
    if op == 0x30 {
        r == Instruction::Faload
    } else
    if op == 0x31 {
        r == Instruction::Daload
    } else
    if op == 0x32 {
        r == Instruction::Aaload
    } else
    if op == 0x33 {
        r == Instruction::Baload
    } else
    if op == 0x34 {
        r == Instruction::Caload
    } else
    if op == 0x35 {
        r == Instruction::Saload
    } else
    if op == 0x36 {
        if pos + 2 <= code.len() {
            r == (Instruction::Istore { index: code[pos + 1] })
        } else {
            is_truncated(r)
        }
    } else
    if op == 0x37 {
        if pos + 2 <= code.len() {
            r == (Instruction::Lstore { index: code[pos + 1] })
        } else {
            is_truncated(r)
        }
    } else
    if op == 0x38 {
        if pos + 2 <= code.len() {
            r == (Instruction::Fstore { index: code[pos + 1] })
        } else {
            is_truncated(r)
        }
    } else
    if op == 0x39 {
        if pos + 2 <= code.len() {
            r == (Instruction::Dstore { index: code[pos + 1] })
        } else {
            is_truncated(r)
        }
    } else
    if op == 0x3a {
        if pos + 2 <= code.len() {
            r == (Instruction::Astore { index: code[pos + 1] })
        } else {
            is_truncated(r)
        }
    } else
    if op == 0x3b {
        r == (Instruction::Istore { index: 0 })
    } else
    if op == 0x3c {
        r == (Instruction::Istore { index: 1 })
    } else
    if op == 0x3d {
        r == (Instruction::Istore { index: 2 })
    } else
    if op == 0x3e {
        r == (Instruction::Istore { index: 3 })
    } else
    if op == 0x3f {
        r == (Instruction::Lstore { index: 0 })
    } else
    if op == 0x40 {
        r == (Instruction::Lstore { index: 1 })
    } else
    if op == 0x41 {
        r == (Instruction::Lstore { index: 2 })
    } else
    if op == 0x42 {
        r == (Instruction::Lstore { index: 3 })
    } else
    if op == 0x43 {
        r == (Instruction::Fstore { index: 0 })
    } else
    if op == 0x44 {
        r == (Instruction::Fstore { index: 1 })
    } else
    if op == 0x45 {
        r == (Instruction::Fstore { index: 2 })
    } else
    if op == 0x46 {
        r == (Instruction::Fstore { index: 3 })
    } else
    if op == 0x47 {
        r == (Instruction::Dstore { index: 0 })
    } else
    if op == 0x48 {
        r == (Instruction::Dstore { index: 1 })
    } else
    if op == 0x49 {
        r == (Instruction::Dstore { index: 2 })
    } else
    if op == 0x4a {
        r == (Instruction::Dstore { index: 3 })
    } else
    if op == 0x4b {
        r == (Instruction::Astore { index: 0 })
    } else
    if op == 0x4c {
        r == (Instruction::Astore { index: 1 })
    } else
    if op == 0x4d {
        r == (Instruction::Astore { index: 2 })
    } else
    if op == 0x4e {
        r == (Instruction::Astore { index: 3 })
    } else
    if op == 0x4f {
        r == Instruction::Iastore
    } else
    if op == 0x50 {
        r == Instruction::Lastore
    } else
    if op == 0x51 {
        r == Instruction::Fastore
    } else
    if op == 0x52 {
        r == Instruction::Dastore
    } else
    if op == 0x53 {
        r == Instruction::Aastore
    } else
    if op == 0x54 {
        r == Instruction::Bastore
    } else
    if op == 0x55 {
        r == Instruction::Castore
    } else
    if op == 0x56 {
        r == Instruction::Sastore
    } else
    if op == 0x57 {
        r == Instruction::Pop
    } else
    if op == 0x58 {
        r == Instruction::Pop2
    } else
    if op == 0x59 {
        r == Instruction::Dup
    } else
    if op == 0x5a {
        r == Instruction::DupX1
    } else
    if op == 0x5b {
        r == Instruction::DupX2
    } else
    if op == 0x5c {
        r == Instruction::Dup2
    } else
    if op == 0x5d {
        r == Instruction::Dup2X1
    } else
    if op == 0x5e {
        r == Instruction::Dup2X2
    } else
    if op == 0x5f {
        r == Instruction::Swap
    } else
    if op == 0x60 {
        r == Instruction::Iadd
    } else
    if op == 0x61 {
        r == Instruction::Ladd
    } else
    if op == 0x62 {
        r == Instruction::Fadd
    } else
    if op == 0x63 {
        r == Instruction::Dadd
    } else
    if op == 0x64 {
        r == Instruction::Isub
    } else
    if op == 0x65 {
        r == Instruction::Lsub
    } else
    if op == 0x66 {
        r == Instruction::Fsub
    } else
    if op == 0x67 {
        r == Instruction::Dsub
    } else
    if op == 0x68 {
        r == Instruction::Imul
    } else
    if op == 0x69 {
        r == Instruction::Lmul
    } else
    if op == 0x6a {
        r == Instruction::Fmul
    } else
    if op == 0x6b {
        r == Instruction::Dmul
    } else
    if op == 0x6c {
        r == Instruction::Idiv
    } else
    if op == 0x6d {
        r == Instruction::Ldiv
    } else
    if op == 0x6e {
        r == Instruction::Fdiv
    } else
    if op == 0x6f {
        r == Instruction::Ddiv
    } else
    if op == 0x70 {
        r == Instruction::Irem
    } else
    if op == 0x71 {
        r == Instruction::Lrem
    } else
    if op == 0x72 {
        r == Instruction::Frem
    } else
    if op == 0x73 {
        r == Instruction::Drem
    } else
    if op == 0x74 {
        r == Instruction::Ineg
    } else
    if op == 0x75 {
        r == Instruction::Lneg
    } else
    if op == 0x76 {
        r == Instruction::Fneg
    } else
    if op == 0x77 {
        r == Instruction::Dneg
    } else
    if op == 0x78 {
        r == Instruction::Ishl
    } else
    if op == 0x79 {
        r == Instruction::Lshl
    } else
    if op == 0x7a {
        r == Instruction::Ishr
    } else
    if op == 0x7b {
        r == Instruction::Lshr
    } else
    if op == 0x7c {
        r == Instruction::Iushr
    } else
    if op == 0x7d {
        r == Instruction::Lushr
    } else
    if op == 0x7e {
        r == Instruction::Iand
    } else
    if op == 0x7f {
        r == Instruction::Land
    } else
    if op == 0x80 {
        r == Instruction::Ior
    } else
    if op == 0x81 {
        r == Instruction::Lor
    } else
    if op == 0x82 {
        r == Instruction::Ixor
    } else
    if op == 0x83 {
        r == Instruction::Lxor
    } else
    if op == 0x84 {
        if pos + 3 <= code.len() {
            r == (Instruction::Iinc { index: code[pos + 1], const_value: i8_at(code, pos + 2) })
        } else {
            is_truncated(r)
        }
    } else
    if op == 0x85 {
        r == Instruction::I2l
    } else
    if op == 0x86 {
        r == Instruction::I2f
    } else
    if op == 0x87 {
        r == Instruction::I2d
    } else
    if op == 0x88 {
        r == Instruction::L2i
    } else
    if op == 0x89 {
        r == Instruction::L2f
    } else
    if op == 0x8a {
        r == Instruction::L2d
    } else
    if op == 0x8b {
        r == Instruction::F2i
    } else
    if op == 0x8c {
        r == Instruction::F2l
    } else
    if op == 0x8d {
        r == Instruction::F2d
    } else
    if op == 0x8e {
        r == Instruction::D2i
    } else
    if op == 0x8f {
        r == Instruction::D2l
    } else
    if op == 0x90 {
        r == Instruction::D2f
    } else
    if op == 0x91 {
        r == Instruction::I2b
    } else
    if op == 0x92 {
        r == Instruction::I2c
    } else
    if op == 0x93 {
        r == Instruction::I2s
    } else
    if op == 0x94 {
        r == Instruction::Lcmp
    } else
    if op == 0x95 {
        r == Instruction::Fcmpl
    } else
    if op == 0x96 {
        r == Instruction::Fcmpg
    } else
    if op == 0x97 {
        r == Instruction::Dcmpl
    } else
    if op == 0x98 {
        r == Instruction::Dcmpg
    } else
    if op == 0x99 {
        if pos + 3 <= code.len() {
            r == (Instruction::Ifeq { offset: i16_at(code, pos + 1) })
        } else {
            is_truncated(r)
        }
    } else
    if op == 0x9a {
        if pos + 3 <= code.len() {
            r == (Instruction::Ifne { offset: i16_at(code, pos + 1) })
        } else {
            is_truncated(r)
        }
    } else
    if op == 0x9b {
        if pos + 3 <= code.len() {
            r == (Instruction::Iflt { offset: i16_at(code, pos + 1) })
        } else {
            is_truncated(r)
        }
    } else
    if op == 0x9c {
        if pos + 3 <= code.len() {
            r == (Instruction::Ifge { offset: i16_at(code, pos + 1) })
        } else {
            is_truncated(r)
        }
    } else
    if op == 0x9d {
        if pos + 3 <= code.len() {
            r == (Instruction::Ifgt { offset: i16_at(code, pos + 1) })
        } else {
            is_truncated(r)
        }
    } else
    if op == 0x9e {
        if pos + 3 <= code.len() {
            r == (Instruction::Ifle { offset: i16_at(code, pos + 1) })
        } else {
            is_truncated(r)
        }
    } else
    if op == 0x9f {
        if pos + 3 <= code.len() {
            r == (Instruction::IfIcmpeq { offset: i16_at(code, pos + 1) })
        } else {
            is_truncated(r)
        }
    } else
    if op == 0xa0 {
        if pos + 3 <= code.len() {
            r == (Instruction::IfIcmpne { offset: i16_at(code, pos + 1) })
        } else {
            is_truncated(r)
        }
    } else
    if op == 0xa1 {
        if pos + 3 <= code.len() {
            r == (Instruction::IfIcmplt { offset: i16_at(code, pos + 1) })
        } else {
            is_truncated(r)
        }
    } else
    if op == 0xa2 {
        if pos + 3 <= code.len() {
            r == (Instruction::IfIcmpge { offset: i16_at(code, pos + 1) })
        } else {
            is_truncated(r)
        }
    } else
    if op == 0xa3 {
        if pos + 3 <= code.len() {
            r == (Instruction::IfIcmpgt { offset: i16_at(code, pos + 1) })
        } else {
            is_truncated(r)
        }
    } else
    if op == 0xa4 {
        if pos + 3 <= code.len() {
            r == (Instruction::IfIcmple { offset: i16_at(code, pos + 1) })
        } else {
            is_truncated(r)
        }
    } else
    if op == 0xa5 {
        if pos + 3 <= code.len() {
            r == (Instruction::IfAcmpeq { offset: i16_at(code, pos + 1) })
        } else {
            is_truncated(r)
        }
    } else
    if op == 0xa6 {
        if pos + 3 <= code.len() {
            r == (Instruction::IfAcmpne { offset: i16_at(code, pos + 1) })
        } else {
            is_truncated(r)
        }
    } else
    if op == 0xa7 {
        if pos + 3 <= code.len() {
            r == (Instruction::Goto { offset: i16_at(code, pos + 1) })
        } else {
            is_truncated(r)
        }
    } else
    if op == 0xa8 {
        if pos + 3 <= code.len() {
            r == (Instruction::Jsr { offset: i16_at(code, pos + 1) })
        } else {
            is_truncated(r)
        }
    } else
    if op == 0xa9 {
        if pos + 2 <= code.len() {
            r == (Instruction::Ret { index: code[pos + 1] })
        } else {
            is_truncated(r)
        }
    } else
    if op == 0xaa {
        table_switch_has(code, pos + 1, r)
    } else
    if op == 0xab {
        lookup_switch_has(code, pos + 1, r)
    } else
    if op == 0xac {
        r == Instruction::Ireturn
    } else
    if op == 0xad {
        r == Instruction::Lreturn
    } else
    if op == 0xae {
        r == Instruction::Freturn
    } else
    if op == 0xaf {
        r == Instruction::Dreturn
    } else
    if op == 0xb0 {
        r == Instruction::Areturn
    } else
    if op == 0xb1 {
        r == Instruction::Return
    } else
    if op == 0xb2 {
        if pos + 3 <= code.len() {
            r == (Instruction::Getstatic { index: u16_at(code, pos + 1) })
        } else {
            is_truncated(r)
        }
    } else
    if op == 0xb3 {
        if pos + 3 <= code.len() {
            r == (Instruction::Putstatic { index: u16_at(code, pos + 1) })
        } else {
            is_truncated(r)
        }
    } else
    if op == 0xb4 {
        if pos + 3 <= code.len() {
            r == (Instruction::Getfield { index: u16_at(code, pos + 1) })
        } else {
            is_truncated(r)
        }
    } else
    if op == 0xb5 {
        if pos + 3 <= code.len() {
            r == (Instruction::Putfield { index: u16_at(code, pos + 1) })
        } else {
            is_truncated(r)
        }
    } else
    if op == 0xb6 {
        if pos + 3 <= code.len() {
            r == (Instruction::Invokevirtual { index: u16_at(code, pos + 1) })
        } else {
            is_truncated(r)
        }
    } else
    if op == 0xb7 {
        if pos + 3 <= code.len() {
            r == (Instruction::Invokespecial { index: u16_at(code, pos + 1) })
        } else {
            is_truncated(r)
        }
    } else
    if op == 0xb8 {
        if pos + 3 <= code.len() {
            r == (Instruction::Invokestatic { index: u16_at(code, pos + 1) })
        } else {
            is_truncated(r)
        }
    } else
    if op == 0xb9 {
        if pos + 4 <= code.len() {
            r == (Instruction::Invokeinterface { index: u16_at(code, pos + 1), count: code[pos + 3] })
        } else {
            is_truncated(r)
        }
    } else
    if op == 0xba {
        if pos + 3 <= code.len() {
            r == (Instruction::Invokedynamic { index: u16_at(code, pos + 1) })
        } else {
            is_truncated(r)
        }
    } else
    if op == 0xbb {
        if pos + 3 <= code.len() {
            r == (Instruction::New { index: u16_at(code, pos + 1) })
        } else {
            is_truncated(r)
        }
    } else
    if op == 0xbc {
        if pos + 2 <= code.len() {
            r == (Instruction::Newarray { atype: code[pos + 1] })
        } else {
            is_truncated(r)
        }
    } else
    if op == 0xbd {
        if pos + 3 <= code.len() {
            r == (Instruction::Anewarray { index: u16_at(code, pos + 1) })
        } else {
            is_truncated(r)
        }
    } else
    if op == 0xbe {
        r == Instruction::Arraylength
    } else
    if op == 0xbf {
        r == Instruction::Athrow
    } else
    if op == 0xc0 {
        if pos + 3 <= code.len() {
            r == (Instruction::Checkcast { index: u16_at(code, pos + 1) })
        } else {
            is_truncated(r)
        }
    } else
    if op == 0xc1 {
        if pos + 3 <= code.len() {
            r == (Instruction::Instanceof { index: u16_at(code, pos + 1) })
        } else {
            is_truncated(r)
        }
    } else
    if op == 0xc2 {
        r == Instruction::Monitorenter
    } else
    if op == 0xc3 {
        r == Instruction::Monitorexit
    } else
    if op == 0xc4 {
        wide_has(code, pos + 1, r)
    } else
    if op == 0xc5 {
        if pos + 4 <= code.len() {
            r == (Instruction::Multianewarray { index: u16_at(code, pos + 1), dimensions: code[pos + 3] })
        } else {
            is_truncated(r)
        }
    } else
    if op == 0xc6 {
        if pos + 3 <= code.len() {
            r == (Instruction::Ifnull { offset: i16_at(code, pos + 1) })
        } else {
            is_truncated(r)
        }
    } else
    if op == 0xc7 {
        if pos + 3 <= code.len() {
            r == (Instruction::Ifnonnull { offset: i16_at(code, pos + 1) })
        } else {
            is_truncated(r)
        }
    } else
    if op == 0xc8 {
        if pos + 5 <= code.len() {
            r == (Instruction::GotoW { offset: i32_at(code, pos + 1) })
        } else {
            is_truncated(r)
        }
    } else
    if op == 0xc9 {
        if pos + 5 <= code.len() {
            r == (Instruction::JsrW { offset: i32_at(code, pos + 1) })
        } else {
            is_truncated(r)
        }
    } else {
        is_invalid_opcode(r, op)
    }
}

/// Operand byte count of a fixed-length opcode; `-1` marks an opcode that is
/// not in the instruction set. `tableswitch`, `lookupswitch` and `wide` are
/// handled apart and also map to `-1` here.
pub open spec fn operand_count(op: u8) -> int {
    if op <= 0x0f || (0x1a <= op <= 0x35) || (0x3b <= op <= 0x83) || (0x85 <= op <= 0x98) || (0xac
        <= op <= 0xb1) || op == 0xbe || op == 0xbf || op == 0xc2 || op == 0xc3 {
        0
    } else if op == 0x10 || op == 0x12 || (0x15 <= op <= 0x19) || (0x36 <= op <= 0x3a) || op == 0xa9
        || op == 0xbc {
        1
    } else if op == 0x11 || op == 0x13 || op == 0x14 || op == 0x84 || (0x99 <= op <= 0xa8) || (0xb2
        <= op <= 0xb8) || op == 0xba || op == 0xbb || op == 0xbd || op == 0xc0 || op == 0xc1 || op
        == 0xc6 || op == 0xc7 {
        2
    } else if op == 0xb9 || op == 0xc5 {
        3
    } else if op == 0xc8 || op == 0xc9 {
        4
    } else {
        -1
    }
}

/// The `Unknown` instruction that reports operands cut off by the buffer end.
fn truncated_instruction() -> (r: Instruction)
    ensures
        is_truncated(r),
{
    Instruction::Unknown { error: "Could not read instruction".to_owned() }
}

/// The `Unknown` instruction that reports an opcode outside the set.
fn invalid_opcode_instruction(op: u8) -> (r: Instruction)
    ensures
        is_invalid_opcode(r, op),
{
    let mut error = "Invalid opcode: ".to_owned();
    append_dec_u8(&mut error, op);
    Instruction::Unknown { error }
}

/// The `Unknown` instruction that reports a `wide` prefix on an opcode that
/// cannot be widened.
fn invalid_wide_instruction(op: u8) -> (r: Instruction)
    ensures
        is_invalid_wide(r, op),
{
    let mut error = "Invalid wide opcode: ".to_owned();
    append_dec_u8(&mut error, op);
    Instruction::Unknown { error }
}

/// Decodes the operands of a `tableswitch` whose opcode byte ends at `pos`:
/// 0-3 alignment padding bytes, then `default`, `low`, `high` and
/// `max(0, high - low + 1)` branch offsets, all big-endian `i32`.
#[verifier::loop_isolation(false)]
pub fn read_table_switch(code: &Vec<u8>, pos: usize) -> (r: Result<
    (Instruction, usize),
    InstructionReadError,
>)
    requires
        pos <= code@.len(),
    ensures
        r is Ok <==> table_switch_ok(code@, pos as int),
        r matches Ok(p) ==> table_switch_has(code@, pos as int, p.0) && p.1 == table_switch_end(
            code@,
            pos as int,
        ),
{
    let pad: usize = (4 - (pos % 4)) % 4;
    proof {
        lemma_switch_alignment(pos as int);
    }
    if code.len() - pos < pad || code.len() - pos - pad < 12 {
        return Err(InstructionReadError::Truncated);
    }
    let t: usize = pos + pad;
    let default: i32 = match read_i32_at(code, t) {
        Some(v) => v,
        None => {
            return Err(InstructionReadError::Truncated);
        },
    };
    let low: i32 = match read_i32_at(code, t + 4) {
        Some(v) => v,
        None => {
            return Err(InstructionReadError::Truncated);
        },
    };
    let high: i32 = match read_i32_at(code, t + 8) {
        Some(v) => v,
        None => {
            return Err(InstructionReadError::Truncated);
        },
    };
    let count64: i64 = high as i64 - low as i64 + 1;
    let count_u64: u64 = if count64 < 0 {
        0
    } else {
        count64 as u64
    };
    proof {
        assert(count_u64 == ts_count(code@, t as int));
    }
    if ((code.len() - t - 12) as u64) / 4 < count_u64 {
        return Err(InstructionReadError::Truncated);
    }
    let count: usize = count_u64 as usize;
    let mut offsets: Vec<i32> = Vec::new();
    let mut i: usize = 0;
    proof {
        assert(offsets@ =~= Seq::new(0, |k: int| i32_at(code@, t + 12 + 4 * k)));
    }
    while i < count
        invariant
            i <= count,
            count == ts_count(code@, t as int),
            t == pos + switch_pad(pos as int),
            t + 12 + 4 * count <= code@.len(),
            offsets@ == Seq::new(i as nat, |k: int| i32_at(code@, (t + 12 + 4 * k) as int)),
        decreases count - i,
    {
        let off: i32 = match read_i32_at(code, t + 12 + 4 * i) {
            Some(v) => v,
            None => {
                proof {
                    assert(false);
                }
                return Err(InstructionReadError::Truncated);
            },
        };
        offsets.push(off);
        proof {
            assert(offsets@ =~= Seq::new((i + 1) as nat, |k: int| i32_at(code@, t + 12 + 4 * k)));
        }
        i = i + 1;
    }
    Ok((Instruction::Tableswitch { default, low, high, offsets }, t + 12 + 4 * count))
}

/// Decodes the operands of a `lookupswitch` whose opcode byte ends at `pos`:
/// 0-3 alignment padding bytes, then `default`, `npairs` and `npairs`
/// match/offset pairs, all big-endian `i32`. On duplicate match keys the
/// later pair wins.
#[verifier::loop_isolation(false)]
pub fn read_lookup_switch(code: &Vec<u8>, pos: usize) -> (r: Result<
    (Instruction, usize),
    InstructionReadError,
>)
    requires
        pos <= code@.len(),
    ensures
        r is Ok <==> lookup_switch_ok(code@, pos as int),
        r matches Ok(p) ==> lookup_switch_has(code@, pos as int, p.0) && p.1 == lookup_switch_end(
            code@,
            pos as int,
        ),
{
    let pad: usize = (4 - (pos % 4)) % 4;
    proof {
        lemma_switch_alignment(pos as int);
    }
    if code.len() - pos < pad || code.len() - pos - pad < 8 {
        return Err(InstructionReadError::Truncated);
    }
    let t: usize = pos + pad;
    let default: i32 = match read_i32_at(code, t) {
        Some(v) => v,
        None => {
            return Err(InstructionReadError::Truncated);
        },
    };
    let npairs_raw: i32 = match read_i32_at(code, t + 4) {
        Some(v) => v,
        None => {
            return Err(InstructionReadError::Truncated);
        },
    };
    let np_u64: u64 = if npairs_raw < 0 {
        0
    } else {
        npairs_raw as u64
    };
    proof {
        assert(np_u64 == lookup_np(code@, t as int));
    }
    if ((code.len() - t - 8) as u64) / 8 < np_u64 {
        return Err(InstructionReadError::Truncated);
    }
    let np: usize = np_u64 as usize;
    let mut matches: HashMap<i32, i32> = HashMap::new();
    let mut i: usize = 0;
    while i < np
        invariant
            i <= np,
            np == lookup_np(code@, t as int),
            t == pos + switch_pad(pos as int),
            t + 8 + 8 * np <= code@.len(),
            matches@ == lookup_pairs(code@, t as int, i as int),
        decreases np - i,
    {
        let m: i32 = match read_i32_at(code, t + 8 + 8 * i) {
            Some(v) => v,
            None => {
                proof {
                    assert(false);
                }
                return Err(InstructionReadError::Truncated);
            },
        };
        let off: i32 = match read_i32_at(code, t + 8 + 8 * i + 4) {
            Some(v) => v,
            None => {
                proof {
                    assert(false);
                }
                return Err(InstructionReadError::Truncated);
            },
        };
        matches.insert(m, off);
        i = i + 1;
    }
    Ok((Instruction::Lookupswitch { default_offset: default, matches }, t + 8 + 8 * np))
}

/// Decodes a `wide` instruction whose prefix byte ends at `pos`: the inner
/// opcode is re-decoded with a 2-byte index, and for `iinc` a 2-byte signed
/// constant.
pub fn read_wide_instruction(code: &Vec<u8>, pos: usize) -> (r: (Instruction, usize))
    requires
        pos <= code@.len(),
    ensures
        wide_has(code@, pos as int, r.0),
        r.1 == wide_end(code@, pos as int),
        pos < r.1 <= code@.len() || (pos == code@.len() && r.1 == pos),
{
    proof {
        vstd::std_specs::vec::axiom_spec_len(code);
    }
    let inner: u8 = match read_u8_at(code, pos) {
        Some(v) => v,
        None => {
            return (truncated_instruction(), code.len());
        },
    };
    if inner == 0x84 {
        match read_u16_at(code, pos + 1) {
            Some(index) => match read_i16_at(code, pos + 3) {
                Some(const_value) => (
                    Instruction::Wide(Box::new(WideInstruction::Iinc { index, const_value })),
                    pos + 5,
                ),
                None => (truncated_instruction(), code.len()),
            },
            None => (truncated_instruction(), code.len()),
        }
    } else if inner == 0x15 || inner == 0x16 || inner == 0x17 || inner == 0x18 || inner == 0x19
        || inner == 0x36 || inner == 0x37 || inner == 0x38 || inner == 0x39 || inner == 0x3a
        || inner == 0xa9 {
        match read_u16_at(code, pos + 1) {
            Some(index) => {
                let w: WideInstruction = if inner == 0x15 {
                    WideInstruction::Iload { index }
                } else if inner == 0x16 {
                    WideInstruction::Lload { index }
                } else if inner == 0x17 {
                    WideInstruction::Fload { index }
                } else if inner == 0x18 {
                    WideInstruction::Dload { index }
                } else if inner == 0x19 {
                    WideInstruction::Aload { index }
                } else if inner == 0x36 {
                    WideInstruction::Istore { index }
                } else if inner == 0x37 {
                    WideInstruction::Lstore { index }
                } else if inner == 0x38 {
                    WideInstruction::Fstore { index }
                } else if inner == 0x39 {
                    WideInstruction::Dstore { index }
                } else if inner == 0x3a {
                    WideInstruction::Astore { index }
                } else {
                    WideInstruction::Ret { index }
                };
                (Instruction::Wide(Box::new(w)), pos + 3)
            },
            None => (truncated_instruction(), code.len()),
        }
    } else {
        (invalid_wide_instruction(inner), pos + 1)
    }
}

/// Decodes the instruction that starts at `pos`. Returns `None` exactly when
/// `pos` is at or past the end of the buffer; every other position decodes
/// to an instruction (possibly `Unknown`) and the position where decoding
/// continues.
pub fn read_instruction(code: &Vec<u8>, pos: usize) -> (r: Option<(Instruction, usize)>)
    ensures
        pos < code@.len() ==> (r matches Some(p) && instr_has(code@, pos as int, p.0) && p.1
            == instr_end(code@, pos as int) && pos < p.1 <= code@.len()),
        pos >= code@.len() ==> r is None,
{
    proof {
        vstd::std_specs::vec::axiom_spec_len(code);
    }
    let op: u8 = match read_u8_at(code, pos) {
        Some(v) => v,
        None => {
            return None;
        },
    };
    proof {
        lemma_instr_end_bounds(code@, pos as int);
    }
    match op {
        0x00 => Some((Instruction::Nop, pos + 1)),
        0x01 => Some((Instruction::AconstNull, pos + 1)),
        0x02 => Some((Instruction::Iconst { value: -1 }, pos + 1)),
        0x03 => Some((Instruction::Iconst { value: 0 }, pos + 1)),
        0x04 => Some((Instruction::Iconst { value: 1 }, pos + 1)),
        0x05 => Some((Instruction::Iconst { value: 2 }, pos + 1)),
        0x06 => Some((Instruction::Iconst { value: 3 }, pos + 1)),
        0x07 => Some((Instruction::Iconst { value: 4 }, pos + 1)),
        0x08 => Some((Instruction::Iconst { value: 5 }, pos + 1)),
        0x09 => Some((Instruction::Lconst0, pos + 1)),
        0x0a => Some((Instruction::Lconst1, pos + 1)),
        0x0b => Some((Instruction::Fconst0, pos + 1)),
        0x0c => Some((Instruction::Fconst1, pos + 1)),
        0x0d => Some((Instruction::Fconst2, pos + 1)),
        0x0e => Some((Instruction::Dconst0, pos + 1)),
        0x0f => Some((Instruction::Dconst1, pos + 1)),
        0x10 => match read_i8_at(code, pos + 1) {
            Some(v) => Some((Instruction::Bipush { byte: v }, pos + 2)),
            None => Some((truncated_instruction(), code.len())),
        },
        0x11 => match read_i16_at(code, pos + 1) {
            Some(v) => Some((Instruction::Sipush { short: v }, pos + 3)),
            None => Some((truncated_instruction(), code.len())),
        },
        0x12 => match read_u8_at(code, pos + 1) {
            Some(v) => Some((Instruction::Ldc { index: v }, pos + 2)),
            None => Some((truncated_instruction(), code.len())),
        },
        0x13 => match read_u16_at(code, pos + 1) {
            Some(v) => Some((Instruction::LdcW { index: v }, pos + 3)),
            None => Some((truncated_instruction(), code.len())),
        },
        0x14 => match read_u16_at(code, pos + 1) {
            Some(v) => Some((Instruction::Ldc2W { index: v }, pos + 3)),
            None => Some((truncated_instruction(), code.len())),
        },
        0x15 => match read_u8_at(code, pos + 1) {
            Some(v) => Some((Instruction::Iload { index: v }, pos + 2)),
            None => Some((truncated_instruction(), code.len())),
        },
        0x16 => match read_u8_at(code, pos + 1) {
            Some(v) => Some((Instruction::Lload { index: v }, pos + 2)),
            None => Some((truncated_instruction(), code.len())),
        },
        0x17 => match read_u8_at(code, pos + 1) {
            Some(v) => Some((Instruction::Fload { index: v }, pos + 2)),
            None => Some((truncated_instruction(), code.len())),
        },
        0x18 => match read_u8_at(code, pos + 1) {
            Some(v) => Some((Instruction::Dload { index: v }, pos + 2)),
            None => Some((truncated_instruction(), code.len())),
        },
        0x19 => match read_u8_at(code, pos + 1) {
            Some(v) => Some((Instruction::Aload { index: v }, pos + 2)),
            None => Some((truncated_instruction(), code.len())),
        },
        0x1a => Some((Instruction::Iload { index: 0 }, pos + 1)),
        0x1b => Some((Instruction::Iload { index: 1 }, pos + 1)),
        0x1c => Some((Instruction::Iload { index: 2 }, pos + 1)),
        0x1d => Some((Instruction::Iload { index: 3 }, pos + 1)),
        0x1e => Some((Instruction::Lload { index: 0 }, pos + 1)),
        0x1f => Some((Instruction::Lload { index: 1 }, pos + 1)),
        0x20 => Some((Instruction::Lload { index: 2 }, pos + 1)),
        0x21 => Some((Instruction::Lload { index: 3 }, pos + 1)),
        0x22 => Some((Instruction::Fload { index: 0 }, pos + 1)),
        0x23 => Some((Instruction::Fload { index: 1 }, pos + 1)),
        0x24 => Some((Instruction::Fload { index: 2 }, pos + 1)),
        0x25 => Some((Instruction::Fload { index: 3 }, pos + 1)),
        0x26 => Some((Instruction::Dload { index: 0 }, pos + 1)),
        0x27 => Some((Instruction::Dload { index: 1 }, pos + 1)),
        0x28 => Some((Instruction::Dload { index: 2 }, pos + 1)),
        0x29 => Some((Instruction::Dload { index: 3 }, pos + 1)),
        0x2a => Some((Instruction::Aload { index: 0 }, pos + 1)),
        0x2b => Some((Instruction::Aload { index: 1 }, pos + 1)),
        0x2c => Some((Instruction::Aload { index: 2 }, pos + 1)),
        0x2d => Some((Instruction::Aload { index: 3 }, pos + 1)),
        0x2e => Some((Instruction::Iaload, pos + 1)),
        0x2f => Some((Instruction::Laload, pos + 1)),
        0x30 => Some((Instruction::Faload, pos + 1)),
        0x31 => Some((Instruction::Daload, pos + 1)),
        0x32 => Some((Instruction::Aaload, pos + 1)),
        0x33 => Some((Instruction::Baload, pos + 1)),
        0x34 => Some((Instruction::Caload, pos + 1)),
        0x35 => Some((Instruction::Saload, pos + 1)),
        0x36 => match read_u8_at(code, pos + 1) {
            Some(v) => Some((Instruction::Istore { index: v }, pos + 2)),
            None => Some((truncated_instruction(), code.len())),
        },
        0x37 => match read_u8_at(code, pos + 1) {
            Some(v) => Some((Instruction::Lstore { index: v }, pos + 2)),
            None => Some((truncated_instruction(), code.len())),
        },
        0x38 => match read_u8_at(code, pos + 1) {
            Some(v) => Some((Instruction::Fstore { index: v }, pos + 2)),
            None => Some((truncated_instruction(), code.len())),
        },
        0x39 => match read_u8_at(code, pos + 1) {
            Some(v) => Some((Instruction::Dstore { index: v }, pos + 2)),
            None => Some((truncated_instruction(), code.len())),
        },
        0x3a => match read_u8_at(code, pos + 1) {
            Some(v) => Some((Instruction::Astore { index: v }, pos + 2)),
            None => Some((truncated_instruction(), code.len())),
        },
        0x3b => Some((Instruction::Istore { index: 0 }, pos + 1)),
        0x3c => Some((Instruction::Istore { index: 1 }, pos + 1)),
        0x3d => Some((Instruction::Istore { index: 2 }, pos + 1)),
        0x3e => Some((Instruction::Istore { index: 3 }, pos + 1)),
        0x3f => Some((Instruction::Lstore { index: 0 }, pos + 1)),
        0x40 => Some((Instruction::Lstore { index: 1 }, pos + 1)),
        0x41 => Some((Instruction::Lstore { index: 2 }, pos + 1)),
        0x42 => Some((Instruction::Lstore { index: 3 }, pos + 1)),
        0x43 => Some((Instruction::Fstore { index: 0 }, pos + 1)),
        0x44 => Some((Instruction::Fstore { index: 1 }, pos + 1)),
        0x45 => Some((Instruction::Fstore { index: 2 }, pos + 1)),
        0x46 => Some((Instruction::Fstore { index: 3 }, pos + 1)),
        0x47 => Some((Instruction::Dstore { index: 0 }, pos + 1)),
        0x48 => Some((Instruction::Dstore { index: 1 }, pos + 1)),
        0x49 => Some((Instruction::Dstore { index: 2 }, pos + 1)),
        0x4a => Some((Instruction::Dstore { index: 3 }, pos + 1)),
        0x4b => Some((Instruction::Astore { index: 0 }, pos + 1)),
        0x4c => Some((Instruction::Astore { index: 1 }, pos + 1)),
        0x4d => Some((Instruction::Astore { index: 2 }, pos + 1)),
        0x4e => Some((Instruction::Astore { index: 3 }, pos + 1)),
        0x4f => Some((Instruction::Iastore, pos + 1)),
        0x50 => Some((Instruction::Lastore, pos + 1)),
        0x51 => Some((Instruction::Fastore, pos + 1)),
        0x52 => Some((Instruction::Dastore, pos + 1)),
        0x53 => Some((Instruction::Aastore, pos + 1)),
        0x54 => Some((Instruction::Bastore, pos + 1)),
        0x55 => Some((Instruction::Castore, pos + 1)),
        0x56 => Some((Instruction::Sastore, pos + 1)),
        0x57 => Some((Instruction::Pop, pos + 1)),
        0x58 => Some((Instruction::Pop2, pos + 1)),
        0x59 => Some((Instruction::Dup, pos + 1)),
        0x5a => Some((Instruction::DupX1, pos + 1)),
        0x5b => Some((Instruction::DupX2, pos + 1)),
        0x5c => Some((Instruction::Dup2, pos + 1)),
        0x5d => Some((Instruction::Dup2X1, pos + 1)),
        0x5e => Some((Instruction::Dup2X2, pos + 1)),
        0x5f => Some((Instruction::Swap, pos + 1)),
        0x60 => Some((Instruction::Iadd, pos + 1)),
        0x61 => Some((Instruction::Ladd, pos + 1)),
        0x62 => Some((Instruction::Fadd, pos + 1)),
        0x63 => Some((Instruction::Dadd, pos + 1)),
        0x64 => Some((Instruction::Isub, pos + 1)),
        0x65 => Some((Instruction::Lsub, pos + 1)),
        0x66 => Some((Instruction::Fsub, pos + 1)),
        0x67 => Some((Instruction::Dsub, pos + 1)),
        0x68 => Some((Instruction::Imul, pos + 1)),
        0x69 => Some((Instruction::Lmul, pos + 1)),
        0x6a => Some((Instruction::Fmul, pos + 1)),
        0x6b => Some((Instruction::Dmul, pos + 1)),
        0x6c => Some((Instruction::Idiv, pos + 1)),
        0x6d => Some((Instruction::Ldiv, pos + 1)),
        0x6e => Some((Instruction::Fdiv, pos + 1)),
        0x6f => Some((Instruction::Ddiv, pos + 1)),
        0x70 => Some((Instruction::Irem, pos + 1)),
        0x71 => Some((Instruction::Lrem, pos + 1)),
        0x72 => Some((Instruction::Frem, pos + 1)),
        0x73 => Some((Instruction::Drem, pos + 1)),
        0x74 => Some((Instruction::Ineg, pos + 1)),
        0x75 => Some((Instruction::Lneg, pos + 1)),
        0x76 => Some((Instruction::Fneg, pos + 1)),
        0x77 => Some((Instruction::Dneg, pos + 1)),
        0x78 => Some((Instruction::Ishl, pos + 1)),
        0x79 => Some((Instruction::Lshl, pos + 1)),
        0x7a => Some((Instruction::Ishr, pos + 1)),
        0x7b => Some((Instruction::Lshr, pos + 1)),
        0x7c => Some((Instruction::Iushr, pos + 1)),
        0x7d => Some((Instruction::Lushr, pos + 1)),
        0x7e => Some((Instruction::Iand, pos + 1)),
        0x7f => Some((Instruction::Land, pos + 1)),
        0x80 => Some((Instruction::Ior, pos + 1)),
        0x81 => Some((Instruction::Lor, pos + 1)),
        0x82 => Some((Instruction::Ixor, pos + 1)),
        0x83 => Some((Instruction::Lxor, pos + 1)),
        0x84 => match read_u8_at(code, pos + 1) {
            Some(a) => match read_i8_at(code, pos + 2) {
                Some(b) => Some((Instruction::Iinc { index: a, const_value: b }, pos + 3)),
                None => Some((truncated_instruction(), code.len())),
            },
            None => Some((truncated_instruction(), code.len())),
        },
        0x85 => Some((Instruction::I2l, pos + 1)),
        0x86 => Some((Instruction::I2f, pos + 1)),
        0x87 => Some((Instruction::I2d, pos + 1)),
        0x88 => Some((Instruction::L2i, pos + 1)),
        0x89 => Some((Instruction::L2f, pos + 1)),
        0x8a => Some((Instruction::L2d, pos + 1)),
        0x8b => Some((Instruction::F2i, pos + 1)),
        0x8c => Some((Instruction::F2l, pos + 1)),
        0x8d => Some((Instruction::F2d, pos + 1)),
        0x8e => Some((Instruction::D2i, pos + 1)),
        0x8f => Some((Instruction::D2l, pos + 1)),
        0x90 => Some((Instruction::D2f, pos + 1)),
        0x91 => Some((Instruction::I2b, pos + 1)),
        0x92 => Some((Instruction::I2c, pos + 1)),
        0x93 => Some((Instruction::I2s, pos + 1)),
        0x94 => Some((Instruction::Lcmp, pos + 1)),
        0x95 => Some((Instruction::Fcmpl, pos + 1)),
        0x96 => Some((Instruction::Fcmpg, pos + 1)),
        0x97 => Some((Instruction::Dcmpl, pos + 1)),
        0x98 => Some((Instruction::Dcmpg, pos + 1)),
        0x99 => match read_i16_at(code, pos + 1) {
            Some(v) => Some((Instruction::Ifeq { offset: v }, pos + 3)),
            None => Some((truncated_instruction(), code.len())),
        },
        0x9a => match read_i16_at(code, pos + 1) {
            Some(v) => Some((Instruction::Ifne { offset: v }, pos + 3)),
            None => Some((truncated_instruction(), code.len())),
        },
        0x9b => match read_i16_at(code, pos + 1) {
            Some(v) => Some((Instruction::Iflt { offset: v }, pos + 3)),
            None => Some((truncated_instruction(), code.len())),
        },
        0x9c => match read_i16_at(code, pos + 1) {
            Some(v) => Some((Instruction::Ifge { offset: v }, pos + 3)),
            None => Some((truncated_instruction(), code.len())),
        },
        0x9d => match read_i16_at(code, pos + 1) {
            Some(v) => Some((Instruction::Ifgt { offset: v }, pos + 3)),
            None => Some((truncated_instruction(), code.len())),
        },
        0x9e => match read_i16_at(code, pos + 1) {
            Some(v) => Some((Instruction::Ifle { offset: v }, pos + 3)),
            None => Some((truncated_instruction(), code.len())),
        },
        0x9f => match read_i16_at(code, pos + 1) {
            Some(v) => Some((Instruction::IfIcmpeq { offset: v }, pos + 3)),
            None => Some((truncated_instruction(), code.len())),
        },
        0xa0 => match read_i16_at(code, pos + 1) {
            Some(v) => Some((Instruction::IfIcmpne { offset: v }, pos + 3)),
            None => Some((truncated_instruction(), code.len())),
        },
        0xa1 => match read_i16_at(code, pos + 1) {
            Some(v) => Some((Instruction::IfIcmplt { offset: v }, pos + 3)),
            None => Some((truncated_instruction(), code.len())),
        },
        0xa2 => match read_i16_at(code, pos + 1) {
            Some(v) => Some((Instruction::IfIcmpge { offset: v }, pos + 3)),
            None => Some((truncated_instruction(), code.len())),
        },
        0xa3 => match read_i16_at(code, pos + 1) {
            Some(v) => Some((Instruction::IfIcmpgt { offset: v }, pos + 3)),
            None => Some((truncated_instruction(), code.len())),
        },
        0xa4 => match read_i16_at(code, pos + 1) {
            Some(v) => Some((Instruction::IfIcmple { offset: v }, pos + 3)),
            None => Some((truncated_instruction(), code.len())),
        },
        0xa5 => match read_i16_at(code, pos + 1) {
            Some(v) => Some((Instruction::IfAcmpeq { offset: v }, pos + 3)),
            None => Some((truncated_instruction(), code.len())),
        },
        0xa6 => match read_i16_at(code, pos + 1) {
            Some(v) => Some((Instruction::IfAcmpne { offset: v }, pos + 3)),
            None => Some((truncated_instruction(), code.len())),
        },
        0xa7 => match read_i16_at(code, pos + 1) {
            Some(v) => Some((Instruction::Goto { offset: v }, pos + 3)),
            None => Some((truncated_instruction(), code.len())),
        },
        0xa8 => match read_i16_at(code, pos + 1) {
            Some(v) => Some((Instruction::Jsr { offset: v }, pos + 3)),
            None => Some((truncated_instruction(), code.len())),
        },
        0xa9 => match read_u8_at(code, pos + 1) {
            Some(v) => Some((Instruction::Ret { index: v }, pos + 2)),
            None => Some((truncated_instruction(), code.len())),
        },
        0xaa => match read_table_switch(code, pos + 1) {
            Ok(p) => Some(p),
            Err(_) => Some((truncated_instruction(), code.len())),
        },
        0xab => match read_lookup_switch(code, pos + 1) {
            Ok(p) => Some(p),
            Err(_) => Some((truncated_instruction(), code.len())),
        },
        0xac => Some((Instruction::Ireturn, pos + 1)),
        0xad => Some((Instruction::Lreturn, pos + 1)),
        0xae => Some((Instruction::Freturn, pos + 1)),
        0xaf => Some((Instruction::Dreturn, pos + 1)),
        0xb0 => Some((Instruction::Areturn, pos + 1)),
        0xb1 => Some((Instruction::Return, pos + 1)),
        0xb2 => match read_u16_at(code, pos + 1) {
            Some(v) => Some((Instruction::Getstatic { index: v }, pos + 3)),
            None => Some((truncated_instruction(), code.len())),
        },
        0xb3 => match read_u16_at(code, pos + 1) {
            Some(v) => Some((Instruction::Putstatic { index: v }, pos + 3)),
            None => Some((truncated_instruction(), code.len())),
        },
        0xb4 => match read_u16_at(code, pos + 1) {
            Some(v) => Some((Instruction::Getfield { index: v }, pos + 3)),
            None => Some((truncated_instruction(), code.len())),
        },
        0xb5 => match read_u16_at(code, pos + 1) {
            Some(v) => Some((Instruction::Putfield { index: v }, pos + 3)),
            None => Some((truncated_instruction(), code.len())),
        },
        0xb6 => match read_u16_at(code, pos + 1) {
            Some(v) => Some((Instruction::Invokevirtual { index: v }, pos + 3)),
            None => Some((truncated_instruction(), code.len())),
        },
        0xb7 => match read_u16_at(code, pos + 1) {
            Some(v) => Some((Instruction::Invokespecial { index: v }, pos + 3)),
            None => Some((truncated_instruction(), code.len())),
        },
        0xb8 => match read_u16_at(code, pos + 1) {
            Some(v) => Some((Instruction::Invokestatic { index: v }, pos + 3)),
            None => Some((truncated_instruction(), code.len())),
        },
        0xb9 => match read_u16_at(code, pos + 1) {
            Some(a) => match read_u8_at(code, pos + 3) {
                Some(b) => Some((Instruction::Invokeinterface { index: a, count: b }, pos + 4)),
                None => Some((truncated_instruction(), code.len())),
            },
            None => Some((truncated_instruction(), code.len())),
        },
        0xba => match read_u16_at(code, pos + 1) {
            Some(v) => Some((Instruction::Invokedynamic { index: v }, pos + 3)),
            None => Some((truncated_instruction(), code.len())),
        },
        0xbb => match read_u16_at(code, pos + 1) {
            Some(v) => Some((Instruction::New { index: v }, pos + 3)),
            None => Some((truncated_instruction(), code.len())),
        },
        0xbc => match read_u8_at(code, pos + 1) {
            Some(v) => Some((Instruction::Newarray { atype: v }, pos + 2)),
            None => Some((truncated_instruction(), code.len())),
        },
        0xbd => match read_u16_at(code, pos + 1) {
            Some(v) => Some((Instruction::Anewarray { index: v }, pos + 3)),
            None => Some((truncated_instruction(), code.len())),
        },
        0xbe => Some((Instruction::Arraylength, pos + 1)),
        0xbf => Some((Instruction::Athrow, pos + 1)),
        0xc0 => match read_u16_at(code, pos + 1) {
            Some(v) => Some((Instruction::Checkcast { index: v }, pos + 3)),
            None => Some((truncated_instruction(), code.len())),
        },
        0xc1 => match read_u16_at(code, pos + 1) {
            Some(v) => Some((Instruction::Instanceof { index: v }, pos + 3)),
            None => Some((truncated_instruction(), code.len())),
        },
        0xc2 => Some((Instruction::Monitorenter, pos + 1)),
        0xc3 => Some((Instruction::Monitorexit, pos + 1)),
        0xc4 => Some(read_wide_instruction(code, pos + 1)),
        0xc5 => match read_u16_at(code, pos + 1) {
            Some(a) => match read_u8_at(code, pos + 3) {
                Some(b) => Some((Instruction::Multianewarray { index: a, dimensions: b }, pos + 4)),
                None => Some((truncated_instruction(), code.len())),
            },
            None => Some((truncated_instruction(), code.len())),
        },
        0xc6 => match read_i16_at(code, pos + 1) {
            Some(v) => Some((Instruction::Ifnull { offset: v }, pos + 3)),
            None => Some((truncated_instruction(), code.len())),
        },
        0xc7 => match read_i16_at(code, pos + 1) {
            Some(v) => Some((Instruction::Ifnonnull { offset: v }, pos + 3)),
            None => Some((truncated_instruction(), code.len())),
        },
        0xc8 => match read_i32_at(code, pos + 1) {
            Some(v) => Some((Instruction::GotoW { offset: v }, pos + 5)),
            None => Some((truncated_instruction(), code.len())),
        },
        0xc9 => match read_i32_at(code, pos + 1) {
            Some(v) => Some((Instruction::JsrW { offset: v }, pos + 5)),
            None => Some((truncated_instruction(), code.len())),
        },        _ => Some((invalid_opcode_instruction(op), pos + 1)),
    }
}

/// How many instructions the buffer decodes to from position `pos`.
pub open spec fn instr_count(code: Seq<u8>, pos: int) -> nat
    decreases code.len() - pos,
{
    if pos < 0 || pos >= code.len() {
        0
    } else {
        let e = instr_end(code, pos);
        if pos < e <= code.len() {
            1 + instr_count(code, e)
        } else {
            // never reached: every decode makes progress
            0
        }
    }
}

/// Start position of the `k`-th instruction in the buffer.
pub open spec fn instr_start(code: Seq<u8>, k: nat) -> int
    decreases k,
{
    if k == 0 {
        0
    } else {
        instr_end(code, instr_start(code, (k - 1) as nat))
    }
}

/// Decodes a whole code buffer into its instruction sequence. Unknown
/// opcodes decode to `Unknown` entries and decoding continues; the end of
/// the buffer terminates the loop.
#[verifier::loop_isolation(false)]
pub fn parse_instructions(code: &Vec<u8>) -> (r: Vec<Instruction>)
    ensures
        r@.len() == instr_count(code@, 0),
        forall|k: int|
            0 <= k < r@.len() ==> instr_has(code@, instr_start(code@, k as nat), #[trigger] r@[k]),
{
    let mut out: Vec<Instruction> = Vec::new();
    let mut pos: usize = 0;
    while pos < code.len()
        invariant
            pos <= code@.len(),
            pos as int == instr_start(code@, out@.len() as nat),
            instr_count(code@, 0) == out@.len() + instr_count(code@, pos as int),
            forall|k: int|
                0 <= k < out@.len() ==> instr_has(
                    code@,
                    instr_start(code@, k as nat),
                    #[trigger] out@[k],
                ),
        decreases code@.len() - pos,
    {
        match read_instruction(code, pos) {
            Some((instr, end)) => {
                proof {
                    lemma_instr_end_bounds(code@, pos as int);
                    assert(instr_count(code@, pos as int) == 1 + instr_count(code@, end as int));
                    assert(instr_start(code@, (out@.len() + 1) as nat) == instr_end(
                        code@,
                        instr_start(code@, out@.len() as nat),
                    ));
                }
                out.push(instr);
                pos = end;
            },
            None => {
                proof {
                    assert(false);
                }
            },
        }
    }
    out
}

} // verus!
