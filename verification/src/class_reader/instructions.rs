//! Decoding the instructions of a `Code` attribute.
use vstd::prelude::*;
use crate::bytes::{ClassReader, be_u16, be_u32};
use crate::class_reader::bootstrap::{
    BootstrapMethodRead, BootstrapModel, bootstrap_view, call_site_resolvable, invoke_dynamic_result, loadable_result, resolvable,
};
use crate::class_reader::code::{
    ALOAD, ANEWARRAY, ASTORE, BIPUSH, CHECKCAST, GETSTATIC, GOTO_W, IFEQ, IFNONNULL, IFNULL, IINC, ILOAD, ILOAD_0,
    INSTANCEOF, INVOKEDYNAMIC, INVOKEINTERFACE, INVOKESTATIC, ISTORE, ISTORE_0, JSR, JSR_W, LDC, LDC2_W, LDC_W,
    LOOKUPSWITCH, MULTIANEWARRAY, NEW, NEWARRAY, RET, SIPUSH, TABLESWITCH, WIDE, align4, branch16, branch32,
    operand_len, operand_len_of, read_i16_as_branch_target_label, read_i32_as_branch_target_label, align_to_4_byte_boundary,
};
use crate::class_reader::labels::Labels;
use crate::class_reader::pool::{
    EntryModel, PoolRead, pool_class, pool_field_ref, pool_interface_method_ref, pool_method_or_interface_ref, pool_method_ref,
};
use crate::error::Error;
use crate::tree::class::ClassName;
use crate::tree::code::{ArrayType, Label, LvIndex, atype_of};
use crate::tree::field::FieldRef;
use crate::tree::instruction::{InsnModel, Instruction, InstructionListEntry, ListEntryModel};
use crate::class_reader::frames::{FrameModel, StackMapData};

verus! {

/// The opcode of `goto`.
pub const GOTO: u8 = 0xa7;
/// The opcode of `invokevirtual`.
pub const INVOKEVIRTUAL: u8 = 0xb6;
/// The opcode of `invokespecial`.
pub const INVOKESPECIAL: u8 = 0xb7;
/// The opcode of `putfield`.
pub const PUTFIELD: u8 = 0xb5;

/// Whether `op` is an instruction without operands that has no index folded
/// into it either (as `iload_0` has).
pub open spec fn is_plain(op: u8) -> bool {
    operand_len(op) == 0 && !(ILOAD_0 <= op <= 0x2d) && !(ISTORE_0 <= op <= 0x4e)
}

/// Whether `op` is a load or store with an index operand, or `ret`.
pub open spec fn is_local(op: u8) -> bool {
    (ILOAD <= op <= ALOAD) || (ISTORE <= op <= ASTORE) || op == RET
}

/// Whether `op` is a branch with a 16-bit offset.
pub open spec fn is_branch(op: u8) -> bool {
    (IFEQ <= op <= JSR) || op == IFNULL || op == IFNONNULL
}

/// Whether `op` refers to a class: `new`, `anewarray`, `checkcast` or `instanceof`.
pub open spec fn is_class_op(op: u8) -> bool {
    op == NEW || op == ANEWARRAY || op == CHECKCAST || op == INSTANCEOF
}

/// The array type with the `atype` operand `a`, which lies in `4..=11`.
pub open spec fn array_type_from(a: u8) -> ArrayType {
    if a == 4 { ArrayType::Boolean }
    else if a == 5 { ArrayType::Char }
    else if a == 6 { ArrayType::Float }
    else if a == 7 { ArrayType::Double }
    else if a == 8 { ArrayType::Byte }
    else if a == 9 { ArrayType::Short }
    else if a == 10 { ArrayType::Int }
    else { ArrayType::Long }
}

/// The label of a branch target, which must have one.
pub open spec fn label_of(m: Map<u16, Label>, t: Result<u16, Error>) -> Result<Label, Error> {
    match t {
        Ok(t) => if m.contains_key(t) { Ok(m[t]) } else { Err(Error::MissingLabel) },
        Err(e) => Err(e),
    }
}

/// The labels of `n` 32-bit branch offsets from `at` on, for the opcode at `opcode_pos`.
pub open spec fn table_labels(b: Seq<u8>, opcode_pos: u16, at: int, n: int, m: Map<u16, Label>) -> Result<(Seq<Label>, int), Error>
    decreases n,
{
    if n <= 0 {
        Ok((Seq::empty(), at))
    } else {
        match label_of(m, branch32(b, opcode_pos, at)) {
            Ok(l) => match table_labels(b, opcode_pos, at + 4, n - 1, m) {
                Ok((ls, end)) => Ok((seq![l] + ls, end)),
                Err(e) => Err(e),
            },
            Err(e) => Err(e),
        }
    }
}

/// The `n` pairs of a key and the label of a 32-bit branch offset from `at` on.
pub open spec fn lookup_pairs(b: Seq<u8>, opcode_pos: u16, at: int, n: int, m: Map<u16, Label>)
    -> Result<(Seq<(i32, Label)>, int), Error>
    decreases n,
{
    if n <= 0 {
        Ok((Seq::empty(), at))
    } else if at + 4 > b.len() {
        Err(Error::UnexpectedEnd)
    } else {
        match label_of(m, branch32(b, opcode_pos, at + 4)) {
            Ok(l) => match lookup_pairs(b, opcode_pos, at + 8, n - 1, m) {
                Ok((ps, end)) => Ok((seq![(be_u32(b, at) as i32, l)] + ps, end)),
                Err(e) => Err(e),
            },
            Err(e) => Err(e),
        }
    }
}

/// The outcome of decoding one instruction.
pub ghost enum Decode {
    /// The instruction, and the position after it.
    Insn(InsnModel, int),
    /// Decoding failed.
    Fail(Error),
    /// The length of a `tableswitch` does not fit a 32-bit signed integer.
    Overflow,
    /// A constant or call site refers to itself through its bootstrap arguments.
    Unresolvable,
}

/// An instruction read from a pool entry at `at` with `lookup`, and `extra`
/// bytes after the index.
pub open spec fn pool_insn<T>(b: Seq<u8>, at: int, lookup: Result<T, Error>, extra: int, f: spec_fn(T) -> InsnModel) -> Decode {
    if at + 2 > b.len() {
        Decode::Fail(Error::UnexpectedEnd)
    } else {
        match lookup {
            Ok(x) => if at + 2 + extra > b.len() {
                Decode::Fail(Error::UnexpectedEnd)
            } else {
                Decode::Insn(f(x), at + 2 + extra)
            },
            Err(e) => Decode::Fail(e),
        }
    }
}

/// Decoding a switch instruction at `pos`, whose operands start at `a`.
pub open spec fn decode_switch(b: Seq<u8>, pos: int, a: int, m: Map<u16, Label>) -> Decode {
    let len = b.len() as int;
    let op = b[pos];
    if a > len {
        Decode::Fail(Error::UnexpectedEnd)
    } else {
        match label_of(m, branch32(b, pos as u16, a)) {
            Err(e) => Decode::Fail(e),
            Ok(d) => if op == TABLESWITCH {
                if a + 8 > len || a + 12 > len {
                    Decode::Fail(Error::UnexpectedEnd)
                } else {
                    let low = be_u32(b, a + 4) as i32;
                    let high = be_u32(b, a + 8) as i32;
                    if low > high {
                        Decode::Fail(Error::InvalidSwitch)
                    } else if high - low >= 0x7FFF_FFFF {
                        Decode::Overflow
                    } else {
                        match table_labels(b, pos as u16, a + 12, high - low + 1, m) {
                            Ok((ls, end)) => Decode::Insn(InsnModel::TableSwitch(d, low, high, ls), end),
                            Err(e) => Decode::Fail(e),
                        }
                    }
                }
            } else {
                if a + 8 > len {
                    Decode::Fail(Error::UnexpectedEnd)
                } else {
                    let n = be_u32(b, a + 4) as i32;
                    if n < 0 {
                        Decode::Fail(Error::InvalidSwitch)
                    } else {
                        match lookup_pairs(b, pos as u16, a + 8, n as int, m) {
                            Ok((ps, end)) => Decode::Insn(InsnModel::LookupSwitch(d, ps), end),
                            Err(e) => Decode::Fail(e),
                        }
                    }
                }
            },
        }
    }
}

/// Decoding a `wide` instruction at `pos`.
pub open spec fn decode_wide(b: Seq<u8>, pos: int) -> Decode {
    let len = b.len() as int;
    let q = pos + 1;
    if q + 1 > len {
        Decode::Fail(Error::UnexpectedEnd)
    } else {
        let w = b[q];
        if is_local(w) {
            if q + 3 > len { Decode::Fail(Error::UnexpectedEnd) } else { Decode::Insn(InsnModel::Local(w, be_u16(b, q + 1)), q + 3) }
        } else if w == IINC {
            if q + 5 > len {
                Decode::Fail(Error::UnexpectedEnd)
            } else {
                Decode::Insn(InsnModel::IInc(be_u16(b, q + 1), be_u16(b, q + 3) as i16), q + 5)
            }
        } else {
            Decode::Fail(Error::UnknownOpcode)
        }
    }
}

/// Decoding the instruction at `pos` of the code `b`, with the pool `p`, the
/// bootstrap methods `bsm` and the labels `m` of the branch targets.
pub open spec fn decode_insn(b: Seq<u8>, pos: int, p: Seq<Option<EntryModel>>, bsm: Option<Seq<BootstrapModel>>, m: Map<u16, Label>)
    -> Decode
{
    let len = b.len() as int;
    let op = b[pos];
    let q = pos + 1;
    if is_plain(op) {
        Decode::Insn(InsnModel::Plain(op), q)
    } else if ILOAD_0 <= op <= 0x2d {
        Decode::Insn(InsnModel::Local((ILOAD + (op - ILOAD_0) / 4) as u8, ((op - ILOAD_0) % 4) as u16), q)
    } else if ISTORE_0 <= op <= 0x4e {
        Decode::Insn(InsnModel::Local((ISTORE + (op - ISTORE_0) / 4) as u8, ((op - ISTORE_0) % 4) as u16), q)
    } else if op == BIPUSH {
        if q + 1 > len { Decode::Fail(Error::UnexpectedEnd) } else { Decode::Insn(InsnModel::BiPush(b[q] as i8), q + 1) }
    } else if op == SIPUSH {
        if q + 2 > len { Decode::Fail(Error::UnexpectedEnd) } else { Decode::Insn(InsnModel::SiPush(be_u16(b, q) as i16), q + 2) }
    } else if op == LDC || op == LDC_W || op == LDC2_W {
        let n = if op == LDC { 1int } else { 2int };
        let i = if op == LDC { b[q] as u16 } else { be_u16(b, q) };
        if q + n > len {
            Decode::Fail(Error::UnexpectedEnd)
        } else if !resolvable(p, bsm, i) {
            Decode::Unresolvable
        } else {
            match loadable_result(p, bsm, i) {
                Ok(l) => Decode::Insn(InsnModel::Ldc(l), q + n),
                Err(e) => Decode::Fail(e),
            }
        }
    } else if is_local(op) {
        if q + 1 > len { Decode::Fail(Error::UnexpectedEnd) } else { Decode::Insn(InsnModel::Local(op, b[q] as u16), q + 1) }
    } else if op == IINC {
        if q + 2 > len {
            Decode::Fail(Error::UnexpectedEnd)
        } else {
            Decode::Insn(InsnModel::IInc(b[q] as u16, (b[q + 1] as i8) as i16), q + 2)
        }
    } else if is_branch(op) {
        match label_of(m, branch16(b, pos as u16, q)) {
            Ok(l) => Decode::Insn(InsnModel::Branch(op, l), q + 2),
            Err(e) => Decode::Fail(e),
        }
    } else if op == GOTO_W || op == JSR_W {
        match label_of(m, branch32(b, pos as u16, q)) {
            Ok(l) => Decode::Insn(InsnModel::Branch(if op == GOTO_W { GOTO } else { JSR }, l), q + 4),
            Err(e) => Decode::Fail(e),
        }
    } else if op == TABLESWITCH || op == LOOKUPSWITCH {
        decode_switch(b, pos, align4(q), m)
    } else if GETSTATIC <= op <= PUTFIELD {
        pool_insn(b, q, pool_field_ref(p, be_u16(b, q)), 0, |f| InsnModel::Field(op, f))
    } else if op == INVOKEVIRTUAL {
        pool_insn(b, q, pool_method_ref(p, be_u16(b, q)), 0, |r| InsnModel::Invoke(op, r, false))
    } else if op == INVOKESPECIAL || op == INVOKESTATIC {
        pool_insn(b, q, pool_method_or_interface_ref(p, be_u16(b, q)), 0, |x: (crate::tree::field::RefModel, bool)| InsnModel::Invoke(op, x.0, x.1))
    } else if op == INVOKEINTERFACE {
        pool_insn(b, q, pool_interface_method_ref(p, be_u16(b, q)), 2, |r| InsnModel::Invoke(op, r, true))
    } else if op == INVOKEDYNAMIC {
        if q + 2 > len {
            Decode::Fail(Error::UnexpectedEnd)
        } else if !call_site_resolvable(p, bsm, be_u16(b, q)) {
            Decode::Unresolvable
        } else {
            pool_insn(b, q, invoke_dynamic_result(p, bsm, be_u16(b, q)), 2, |d| InsnModel::InvokeDynamic(d))
        }
    } else if is_class_op(op) {
        pool_insn(b, q, pool_class(p, be_u16(b, q)), 0, |c| InsnModel::Class(op, c))
    } else if op == NEWARRAY {
        if q + 1 > len {
            Decode::Fail(Error::UnexpectedEnd)
        } else if 4 <= b[q] <= 11 {
            Decode::Insn(InsnModel::NewArray(array_type_from(b[q])), q + 1)
        } else {
            Decode::Fail(Error::UnknownTag)
        }
    } else if op == WIDE {
        decode_wide(b, pos)
    } else if op == MULTIANEWARRAY {
        if q + 2 > len {
            Decode::Fail(Error::UnexpectedEnd)
        } else {
            match pool_class(p, be_u16(b, q)) {
                Ok(c) => if q + 3 > len {
                    Decode::Fail(Error::UnexpectedEnd)
                } else {
                    Decode::Insn(InsnModel::MultiANewArray(c, b[q + 2]), q + 3)
                },
                Err(e) => Decode::Fail(e),
            }
        }
    } else {
        Decode::Fail(Error::UnknownOpcode)
    }
}

/// The instruction without operands with the opcode `op`.
fn plain_instruction(op: u8) -> (r: Instruction)
    requires
        is_plain(op),
    ensures
        r@ == InsnModel::Plain(op),
{
    match op {
        0x00 => Instruction::Nop,
        0x01 => Instruction::AConstNull,
        0x02 => Instruction::IConstM1,
        0x03 => Instruction::IConst0,
        0x04 => Instruction::IConst1,
        0x05 => Instruction::IConst2,
        0x06 => Instruction::IConst3,
        0x07 => Instruction::IConst4,
        0x08 => Instruction::IConst5,
        0x09 => Instruction::LConst0,
        0x0a => Instruction::LConst1,
        0x0b => Instruction::FConst0,
        0x0c => Instruction::FConst1,
        0x0d => Instruction::FConst2,
        0x0e => Instruction::DConst0,
        0x0f => Instruction::DConst1,
        0x2e => Instruction::IALoad,
        0x2f => Instruction::LALoad,
        0x30 => Instruction::FALoad,
        0x31 => Instruction::DALoad,
        0x32 => Instruction::AALoad,
        0x33 => Instruction::BALoad,
        0x34 => Instruction::CALoad,
        0x35 => Instruction::SALoad,
        0x4f => Instruction::IAStore,
        0x50 => Instruction::LAStore,
        0x51 => Instruction::FAStore,
        0x52 => Instruction::DAStore,
        0x53 => Instruction::AAStore,
        0x54 => Instruction::BAStore,
        0x55 => Instruction::CAStore,
        0x56 => Instruction::SAStore,
        0x57 => Instruction::Pop,
        0x58 => Instruction::Pop2,
        0x59 => Instruction::Dup,
        0x5a => Instruction::DupX1,
        0x5b => Instruction::DupX2,
        0x5c => Instruction::Dup2,
        0x5d => Instruction::Dup2X1,
        0x5e => Instruction::Dup2X2,
        0x5f => Instruction::Swap,
        0x60 => Instruction::IAdd,
        0x61 => Instruction::LAdd,
        0x62 => Instruction::FAdd,
        0x63 => Instruction::DAdd,
        0x64 => Instruction::ISub,
        0x65 => Instruction::LSub,
        0x66 => Instruction::FSub,
        0x67 => Instruction::DSub,
        0x68 => Instruction::IMul,
        0x69 => Instruction::LMul,
        0x6a => Instruction::FMul,
        0x6b => Instruction::DMul,
        0x6c => Instruction::IDiv,
        0x6d => Instruction::LDiv,
        0x6e => Instruction::FDiv,
        0x6f => Instruction::DDiv,
        0x70 => Instruction::IRem,
        0x71 => Instruction::LRem,
        0x72 => Instruction::FRem,
        0x73 => Instruction::DRem,
        0x74 => Instruction::INeg,
        0x75 => Instruction::LNeg,
        0x76 => Instruction::FNeg,
        0x77 => Instruction::DNeg,
        0x78 => Instruction::IShl,
        0x79 => Instruction::LShl,
        0x7a => Instruction::IShr,
        0x7b => Instruction::LShr,
        0x7c => Instruction::IUShr,
        0x7d => Instruction::LUShr,
        0x7e => Instruction::IAnd,
        0x7f => Instruction::LAnd,
        0x80 => Instruction::IOr,
        0x81 => Instruction::LOr,
        0x82 => Instruction::IXor,
        0x83 => Instruction::LXor,
        0x85 => Instruction::I2L,
        0x86 => Instruction::I2F,
        0x87 => Instruction::I2D,
        0x88 => Instruction::L2I,
        0x89 => Instruction::L2F,
        0x8a => Instruction::L2D,
        0x8b => Instruction::F2I,
        0x8c => Instruction::F2L,
        0x8d => Instruction::F2D,
        0x8e => Instruction::D2I,
        0x8f => Instruction::D2L,
        0x90 => Instruction::D2F,
        0x91 => Instruction::I2B,
        0x92 => Instruction::I2C,
        0x93 => Instruction::I2S,
        0x94 => Instruction::LCmp,
        0x95 => Instruction::FCmpL,
        0x96 => Instruction::FCmpG,
        0x97 => Instruction::DCmpL,
        0x98 => Instruction::DCmpG,
        0xac => Instruction::IReturn,
        0xad => Instruction::LReturn,
        0xae => Instruction::FReturn,
        0xaf => Instruction::DReturn,
        0xb0 => Instruction::AReturn,
        0xb1 => Instruction::Return,
        0xbe => Instruction::ArrayLength,
        0xbf => Instruction::AThrow,
        0xc2 => Instruction::MonitorEnter,
        0xc3 => Instruction::MonitorExit,
        _ => {
            proof {
                assert(false);
            }
            Instruction::Nop
        },
    }
}

/// The load, store or `ret` with the opcode `op` and the local variable `index`.
fn local_instruction(op: u8, index: LvIndex) -> (r: Instruction)
    requires
        is_local(op),
    ensures
        r@ == InsnModel::Local(op, index.index),
{
    match op {
        0x15 => Instruction::ILoad(index),
        0x16 => Instruction::LLoad(index),
        0x17 => Instruction::FLoad(index),
        0x18 => Instruction::DLoad(index),
        0x19 => Instruction::ALoad(index),
        0x36 => Instruction::IStore(index),
        0x37 => Instruction::LStore(index),
        0x38 => Instruction::FStore(index),
        0x39 => Instruction::DStore(index),
        0x3a => Instruction::AStore(index),
        0xa9 => Instruction::Ret(index),
        _ => {
            proof {
                assert(false);
            }
            Instruction::Ret(index)
        },
    }
}

/// The branch with the opcode `op` and the target `label`.
fn branch_instruction(op: u8, label: Label) -> (r: Instruction)
    requires
        is_branch(op),
    ensures
        r@ == InsnModel::Branch(op, label),
{
    match op {
        0x99 => Instruction::IfEq(label),
        0x9a => Instruction::IfNe(label),
        0x9b => Instruction::IfLt(label),
        0x9c => Instruction::IfGe(label),
        0x9d => Instruction::IfGt(label),
        0x9e => Instruction::IfLe(label),
        0x9f => Instruction::IfICmpEq(label),
        0xa0 => Instruction::IfICmpNe(label),
        0xa1 => Instruction::IfICmpLt(label),
        0xa2 => Instruction::IfICmpGe(label),
        0xa3 => Instruction::IfICmpGt(label),
        0xa4 => Instruction::IfICmpLe(label),
        0xa5 => Instruction::IfACmpEq(label),
        0xa6 => Instruction::IfACmpNe(label),
        0xa7 => Instruction::Goto(label),
        0xa8 => Instruction::Jsr(label),
        0xc6 => Instruction::IfNull(label),
        0xc7 => Instruction::IfNonNull(label),
        _ => {
            proof {
                assert(false);
            }
            Instruction::Goto(label)
        },
    }
}

/// Labels read first, then the outcome of reading the rest.
pub open spec fn prepend_labels(done: Seq<Label>, r: Result<(Seq<Label>, int), Error>) -> Result<(Seq<Label>, int), Error> {
    match r {
        Ok((ls, end)) => Ok((done + ls, end)),
        Err(e) => Err(e),
    }
}

/// Pairs read first, then the outcome of reading the rest.
pub open spec fn prepend_pairs(done: Seq<(i32, Label)>, r: Result<(Seq<(i32, Label)>, int), Error>) -> Result<(Seq<(i32, Label)>, int), Error> {
    match r {
        Ok((ps, end)) => Ok((done + ps, end)),
        Err(e) => Err(e),
    }
}

/// Reads a 32-bit branch offset and gives the label of its target.
fn read_branch32_label(reader: &mut ClassReader, labels: &Labels, opcode_pos: u16) -> (r: Result<Label, Error>)
    ensures
        final(reader).data() == old(reader).data(),
        r == label_of(labels.map(), branch32(old(reader).data(), opcode_pos, old(reader).position() as int)),
        r is Ok ==> final(reader).position() == old(reader).position() + 4,
{
    let target = read_i32_as_branch_target_label(reader, opcode_pos)?;
    labels.try_get(target)
}

/// Reads the operands of a `tableswitch` or `lookupswitch` at `opcode_pos`,
/// after its opcode.
fn read_switch(reader: &mut ClassReader, labels: &Labels, opcode_pos: u16, op: u8) -> (r: Result<Instruction, Error>)
    requires
        opcode_pos == old(reader).position() - 1,
        op == old(reader).data()[opcode_pos as int],
        op == TABLESWITCH || op == LOOKUPSWITCH,
        !(decode_switch(old(reader).data(), opcode_pos as int, align4(old(reader).position() as int), labels.map()) is Overflow),
    ensures
        final(reader).data() == old(reader).data(),
        match decode_switch(old(reader).data(), opcode_pos as int, align4(old(reader).position() as int), labels.map()) {
            Decode::Insn(i, next) => r matches Ok(x) && x@ == i && final(reader).position() == next,
            Decode::Fail(e) => r == Err::<Instruction, Error>(e),
            _ => false,
        },
{
    let ghost b = reader.data();
    let ghost m = labels.map();
    let ghost a = align4(reader.position() as int);
    align_to_4_byte_boundary(reader)?;
    let default = read_branch32_label(reader, labels, opcode_pos)?;
    if op == TABLESWITCH {
        let low = reader.read_i32()?;
        let high = reader.read_i32()?;
        if low > high {
            return Err(Error::InvalidSwitch);
        }
        let n: u32 = (high - low + 1) as u32;
        let ghost whole = table_labels(b, opcode_pos, a + 12, high - low + 1, m);
        let mut table: Vec<Label> = Vec::new();
        let mut i: u32 = 0;
        assert(whole == prepend_labels(table@, whole)) by {
            if let Ok((ls, end)) = whole {
                assert(table@ + ls =~= ls);
            }
        }
        while i < n
            invariant
                reader.data() == b,
                b == old(reader).data(),
                a == align4(old(reader).position() as int),
                labels.map() == m,
                i <= n,
                n == high - low + 1,
                whole == table_labels(b, opcode_pos, a + 12, high - low + 1, m),
                decode_switch(old(reader).data(), opcode_pos as int, a, labels.map()) == match whole {
                    Ok((ls, end)) => Decode::Insn(InsnModel::TableSwitch(default, low, high, ls), end),
                    Err(e) => Decode::Fail(e),
                },
                whole == prepend_labels(table@, table_labels(b, opcode_pos, reader.position() as int, n - i, m)),
            decreases n - i,
        {
            let ghost pos = reader.position() as int;
            let l = match read_branch32_label(reader, labels, opcode_pos) {
                Ok(l) => l,
                Err(e) => { return Err(e); },
            };
            let ghost before = table@;
            table.push(l);
            proof {
                if let Ok((ls, end)) = table_labels(b, opcode_pos, pos + 4, n - i - 1, m) {
                    assert(before + (seq![l] + ls) =~= table@ + ls);
                }
            }
            i = i + 1;
        }
        proof {
            assert(table@ + Seq::<Label>::empty() =~= table@);
        }
        Ok(Instruction::TableSwitch { default, low, high, table })
    } else {
        let n = reader.read_i32()?;
        if n < 0 {
            return Err(Error::InvalidSwitch);
        }
        let count: u32 = n as u32;
        let ghost whole = lookup_pairs(b, opcode_pos, a + 8, n as int, m);
        let mut pairs: Vec<(i32, Label)> = Vec::new();
        let mut i: u32 = 0;
        assert(whole == prepend_pairs(pairs@, whole)) by {
            if let Ok((ps, end)) = whole {
                assert(pairs@ + ps =~= ps);
            }
        }
        while i < count
            invariant
                reader.data() == b,
                b == old(reader).data(),
                a == align4(old(reader).position() as int),
                labels.map() == m,
                i <= count,
                count == n,
                whole == lookup_pairs(b, opcode_pos, a + 8, n as int, m),
                decode_switch(old(reader).data(), opcode_pos as int, a, labels.map()) == match whole {
                    Ok((ps, end)) => Decode::Insn(InsnModel::LookupSwitch(default, ps), end),
                    Err(e) => Decode::Fail(e),
                },
                whole == prepend_pairs(pairs@, lookup_pairs(b, opcode_pos, reader.position() as int, count - i, m)),
            decreases count - i,
        {
            let ghost pos = reader.position() as int;
            let key = match reader.read_i32() {
                Ok(k) => k,
                Err(e) => { return Err(e); },
            };
            let l = match read_branch32_label(reader, labels, opcode_pos) {
                Ok(l) => l,
                Err(e) => { return Err(e); },
            };
            let ghost before = pairs@;
            pairs.push((key, l));
            proof {
                if let Ok((ps, end)) = lookup_pairs(b, opcode_pos, pos + 8, count - i - 1, m) {
                    assert(before + (seq![(key, l)] + ps) =~= pairs@ + ps);
                }
            }
            i = i + 1;
        }
        proof {
            assert(pairs@ + Seq::<(i32, Label)>::empty() =~= pairs@);
        }
        Ok(Instruction::LookupSwitch { default, pairs })
    }
}

/// Reads the rest of a `wide` instruction, after its opcode.
fn read_wide(reader: &mut ClassReader) -> (r: Result<Instruction, Error>)
    requires
        old(reader).position() >= 1,
    ensures
        final(reader).data() == old(reader).data(),
        match decode_wide(old(reader).data(), old(reader).position() - 1) {
            Decode::Insn(i, next) => r matches Ok(x) && x@ == i && final(reader).position() == next,
            Decode::Fail(e) => r == Err::<Instruction, Error>(e),
            _ => false,
        },
{
    let w = reader.read_u8()?;
    if w == IINC {
        let index = reader.read_u16()?;
        let value = reader.read_i16()?;
        Ok(Instruction::IInc(LvIndex { index }, value))
    } else if (ILOAD <= w && w <= ALOAD) || (ISTORE <= w && w <= ASTORE) || w == RET {
        let index = reader.read_u16()?;
        Ok(local_instruction(w, LvIndex { index }))
    } else {
        Err(Error::UnknownOpcode)
    }
}

/// Whether `op` is an instruction without operands or folded index.
fn is_plain_opcode(op: u8) -> (r: bool)
    ensures
        r == is_plain(op),
{
    operand_len_of(op) == 0 && !(ILOAD_0 <= op && op <= 0x2d) && !(ISTORE_0 <= op && op <= 0x4e)
}

/// Reads the rest of an instruction that refers to the pool, after its opcode:
/// a field access, a method invocation, a class instruction or `multianewarray`.
#[verifier::rlimit(60)]
fn read_pool_instruction(reader: &mut ClassReader, pool: &PoolRead, op: u8) -> (r: Result<Instruction, Error>)
    requires
        old(reader).position() >= 1,
        op == old(reader).data()[old(reader).position() - 1],
        (GETSTATIC <= op <= PUTFIELD) || (INVOKEVIRTUAL <= op <= INVOKEINTERFACE) || is_class_op(op) || op == MULTIANEWARRAY,
    ensures
        final(reader).data() == old(reader).data(),
        match decode_insn(old(reader).data(), old(reader).position() - 1, pool@, None, Map::empty()) {
            Decode::Insn(i, next) => r matches Ok(x) && x@ == i && final(reader).position() == next,
            Decode::Fail(e) => r == Err::<Instruction, Error>(e),
            _ => false,
        },
{
    let index = reader.read_u16()?;
    if GETSTATIC <= op && op <= PUTFIELD {
        let f = pool.get_field_ref(index)?;
        Ok(if op == GETSTATIC {
            Instruction::GetStatic(f)
        } else if op == 0xb3 {
            Instruction::PutStatic(f)
        } else if op == 0xb4 {
            Instruction::GetField(f)
        } else {
            Instruction::PutField(f)
        })
    } else if op == INVOKEVIRTUAL {
        Ok(Instruction::InvokeVirtual(pool.get_method_ref(index)?))
    } else if op == INVOKESPECIAL {
        let (m, i) = pool.get_method_ref_or_interface_method_ref(index)?;
        Ok(Instruction::InvokeSpecial(m, i))
    } else if op == INVOKESTATIC {
        let (m, i) = pool.get_method_ref_or_interface_method_ref(index)?;
        Ok(Instruction::InvokeStatic(m, i))
    } else if op == INVOKEINTERFACE {
        let m = pool.get_interface_method_ref(index)?;
        let _count = reader.read_u8()?;
        let _zero = reader.read_u8()?;
        Ok(Instruction::InvokeInterface(m))
    } else if op == MULTIANEWARRAY {
        let c = pool.get_class(index)?;
        let dimensions = reader.read_u8()?;
        Ok(Instruction::MultiANewArray(c, dimensions))
    } else {
        let c = pool.get_class(index)?;
        Ok(if op == NEW {
            Instruction::New(c)
        } else if op == ANEWARRAY {
            Instruction::ANewArray(c)
        } else if op == CHECKCAST {
            Instruction::CheckCast(c)
        } else {
            Instruction::InstanceOf(c)
        })
    }
}

/// Reads the instruction at the position of `reader`, in code whose branch
/// targets have the labels `labels`.
///
/// The constants of `ldc` and the call sites of `invokedynamic` are resolved
/// through the pool and the bootstrap methods.
#[verifier::rlimit(60)]
pub fn read_instruction(reader: &mut ClassReader, pool: &PoolRead, labels: &Labels,
    bootstrap_methods: &Option<Vec<BootstrapMethodRead>>) -> (r: Result<Instruction, Error>)
    requires
        old(reader).position() < old(reader).data().len(),
        old(reader).data().len() <= 0xFFFF,
        !(decode_insn(old(reader).data(), old(reader).position() as int, pool@, bootstrap_view(*bootstrap_methods), labels.map()) is Overflow),
        !(decode_insn(old(reader).data(), old(reader).position() as int, pool@, bootstrap_view(*bootstrap_methods), labels.map()) is Unresolvable),
    ensures
        final(reader).data() == old(reader).data(),
        match decode_insn(old(reader).data(), old(reader).position() as int, pool@, bootstrap_view(*bootstrap_methods), labels.map()) {
            Decode::Insn(i, next) => r matches Ok(x) && x@ == i && final(reader).position() == next,
            Decode::Fail(e) => r == Err::<Instruction, Error>(e),
            _ => false,
        },
{
    let ghost b = reader.data();
    let ghost pos = reader.position() as int;
    let ghost bsm = bootstrap_view(*bootstrap_methods);
    let opcode_pos = reader.marker() as u16;
    let op = reader.read_u8()?;
    if is_plain_opcode(op) {
        Ok(plain_instruction(op))
    } else if ILOAD_0 <= op && op <= 0x2d {
        let k = op - ILOAD_0;
        Ok(local_instruction(ILOAD + k / 4, LvIndex { index: (k % 4) as u16 }))
    } else if ISTORE_0 <= op && op <= 0x4e {
        let k = op - ISTORE_0;
        Ok(local_instruction(ISTORE + k / 4, LvIndex { index: (k % 4) as u16 }))
    } else if op == BIPUSH {
        Ok(Instruction::BiPush(reader.read_i8()?))
    } else if op == SIPUSH {
        Ok(Instruction::SiPush(reader.read_i16()?))
    } else if op == LDC {
        let index = reader.read_u8()? as u16;
        Ok(Instruction::Ldc(pool.get_loadable(index, bootstrap_methods)?))
    } else if op == LDC_W || op == LDC2_W {
        let index = reader.read_u16()?;
        Ok(Instruction::Ldc(pool.get_loadable(index, bootstrap_methods)?))
    } else if (ILOAD <= op && op <= ALOAD) || (ISTORE <= op && op <= ASTORE) || op == RET {
        let index = reader.read_u8()? as u16;
        Ok(local_instruction(op, LvIndex { index }))
    } else if op == IINC {
        let index = reader.read_u8()? as u16;
        let value = reader.read_i8()?;
        Ok(Instruction::IInc(LvIndex { index }, value as i16))
    } else if (IFEQ <= op && op <= JSR) || op == IFNULL || op == IFNONNULL {
        let target = read_i16_as_branch_target_label(reader, opcode_pos)?;
        Ok(branch_instruction(op, labels.try_get(target)?))
    } else if op == GOTO_W {
        let target = read_i32_as_branch_target_label(reader, opcode_pos)?;
        Ok(Instruction::Goto(labels.try_get(target)?))
    } else if op == JSR_W {
        let target = read_i32_as_branch_target_label(reader, opcode_pos)?;
        Ok(Instruction::Jsr(labels.try_get(target)?))
    } else if op == TABLESWITCH || op == LOOKUPSWITCH {
        read_switch(reader, labels, opcode_pos, op)
    } else if op == INVOKEDYNAMIC {
        let index = reader.read_u16()?;
        let d = pool.get_invoke_dynamic(index, bootstrap_methods)?;
        let _zero = reader.read_u8()?;
        let _zero = reader.read_u8()?;
        Ok(Instruction::InvokeDynamic(d))
    } else if (GETSTATIC <= op && op <= INVOKEINTERFACE) || op == NEW || op == ANEWARRAY || op == CHECKCAST
        || op == INSTANCEOF || op == MULTIANEWARRAY {
        proof {
            assert(decode_insn(b, pos, pool@, None, Map::empty()) == decode_insn(b, pos, pool@, bsm, labels.map()));
        }
        read_pool_instruction(reader, pool, op)
    } else if op == NEWARRAY {
        let atype = reader.read_u8()?;
        let t = ArrayType::from_atype(atype)?;
        proof {
            assert(t == array_type_from(atype));
        }
        Ok(Instruction::NewArray(t))
    } else if op == WIDE {
        read_wide(reader)
    } else {
        Err(Error::UnknownOpcode)
    }
}

/// Labels read with a table end after its start.
proof fn lemma_table_labels_end(b: Seq<u8>, opcode_pos: u16, at: int, n: int, m: Map<u16, Label>)
    ensures
        table_labels(b, opcode_pos, at, n, m) matches Ok((_, end)) ==> end >= at,
    decreases n,
{
    if n > 0 {
        lemma_table_labels_end(b, opcode_pos, at + 4, n - 1, m);
    }
}

/// Pairs read with a table end after its start.
proof fn lemma_lookup_pairs_end(b: Seq<u8>, opcode_pos: u16, at: int, n: int, m: Map<u16, Label>)
    ensures
        lookup_pairs(b, opcode_pos, at, n, m) matches Ok((_, end)) ==> end >= at,
    decreases n,
{
    if n > 0 {
        lemma_lookup_pairs_end(b, opcode_pos, at + 8, n - 1, m);
    }
}

/// A decoded instruction is followed by a later position.
pub proof fn lemma_decode_advances(b: Seq<u8>, pos: int, p: Seq<Option<EntryModel>>, bsm: Option<Seq<BootstrapModel>>, m: Map<u16, Label>)
    requires
        0 <= pos < b.len(),
    ensures
        decode_insn(b, pos, p, bsm, m) matches Decode::Insn(_, next) ==> next > pos,
{
    let a = align4(pos + 1);
    let low = be_u32(b, a + 4) as i32;
    let high = be_u32(b, a + 8) as i32;
    lemma_table_labels_end(b, pos as u16, a + 12, high - low + 1, m);
    lemma_lookup_pairs_end(b, pos as u16, a + 8, (be_u32(b, a + 4) as i32) as int, m);
}

/// The outcome of decoding all instructions from some position on.
pub ghost enum DecodeAll {
    /// The instructions, with their labels and frames.
    Done(Seq<ListEntryModel>),
    /// Decoding an instruction failed.
    Fail(Error),
    /// A `tableswitch` length overflows, a constant cannot be resolved, or an
    /// instruction reaches past the end of the code.
    Excluded,
}

/// The label at the offset `pos`, if it has one.
pub open spec fn label_at(m: Map<u16, Label>, pos: int) -> Option<Label> {
    if m.contains_key(pos as u16) { Some(m[pos as u16]) } else { None }
}

/// Whether the first of the pending `frames` is the one at `label`.
pub open spec fn frame_here(frames: Seq<(Label, FrameModel)>, label: Option<Label>) -> bool {
    frames.len() > 0 && label is Some && frames[0].0 == label->0
}

/// Decoding the instructions of the code `b` from `pos` on, with the labels
/// `m`, giving each instruction the first of the pending `frames` where it is
/// at the instruction's label.
pub open spec fn decode_code(b: Seq<u8>, pos: int, p: Seq<Option<EntryModel>>, bsm: Option<Seq<BootstrapModel>>,
    m: Map<u16, Label>, frames: Seq<(Label, FrameModel)>) -> DecodeAll
    decreases b.len() - pos,
{
    if pos < 0 || pos >= b.len() {
        DecodeAll::Done(Seq::empty())
    } else {
        match decode_insn(b, pos, p, bsm, m) {
            Decode::Insn(insn, next) => if next > b.len() {
                DecodeAll::Excluded
            } else {
                proof {
                    lemma_decode_advances(b, pos, p, bsm, m);
                }
                let label = label_at(m, pos);
                let here = frame_here(frames, label);
                let entry = ListEntryModel { label, frame: if here { Some(frames[0].1) } else { None }, insn };
                match decode_code(b, next, p, bsm, m, if here { frames.drop_first() } else { frames }) {
                    DecodeAll::Done(rest) => DecodeAll::Done(seq![entry] + rest),
                    other => other,
                }
            },
            Decode::Fail(e) => DecodeAll::Fail(e),
            _ => DecodeAll::Excluded,
        }
    }
}

/// Entries decoded first, then the outcome of decoding the rest.
pub open spec fn prefixed_entries(done: Seq<ListEntryModel>, d: DecodeAll) -> DecodeAll {
    match d {
        DecodeAll::Done(rest) => DecodeAll::Done(done + rest),
        other => other,
    }
}

/// The models of a sequence of entries.
pub open spec fn entries_view(s: Seq<InstructionListEntry>) -> Seq<ListEntryModel> {
    s.map_values(|e: InstructionListEntry| e@)
}

/// The models of pending frames.
pub open spec fn frames_view(s: Seq<(Label, StackMapData)>) -> Seq<(Label, FrameModel)> {
    s.map_values(|f: (Label, StackMapData)| (f.0, f.1@))
}

/// Decodes all instructions of `bytecode`, whose branch targets have the labels
/// `labels`, and gives each the label of its offset and the first of `frames`
/// where that frame is at the instruction's label.
pub fn read_instructions(bytecode: &Vec<u8>, pool: &PoolRead, labels: &Labels,
    bootstrap_methods: &Option<Vec<BootstrapMethodRead>>, frames: Vec<(Label, StackMapData)>)
    -> (r: Result<Vec<InstructionListEntry>, Error>)
    requires
        bytecode.len() <= 0xFFFF,
        !(decode_code(bytecode@, 0, pool@, bootstrap_view(*bootstrap_methods), labels.map(), frames_view(frames@)) is Excluded),
    ensures
        match decode_code(bytecode@, 0, pool@, bootstrap_view(*bootstrap_methods), labels.map(), frames_view(frames@)) {
            DecodeAll::Done(es) => r matches Ok(v) && entries_view(v@) == es,
            DecodeAll::Fail(e) => r == Err::<Vec<InstructionListEntry>, Error>(e),
            DecodeAll::Excluded => false,
        },
{
    let ghost b = bytecode@;
    let ghost bsm = bootstrap_view(*bootstrap_methods);
    let ghost m = labels.map();
    let ghost whole = decode_code(b, 0, pool@, bsm, m, frames_view(frames@));
    let copy = bytecode.clone();
    assert(copy@ =~= b);
    let mut reader = ClassReader::new(copy);
    let mut pending = frames;
    let mut out: Vec<InstructionListEntry> = Vec::new();
    assert(whole == prefixed_entries(entries_view(out@), whole)) by {
        if let DecodeAll::Done(rest) = whole {
            assert(entries_view(out@) + rest =~= rest);
        }
    }
    while reader.marker() < bytecode.len()
        invariant
            reader.data() == b,
            b == bytecode@,
            b.len() <= 0xFFFF,
            reader.position() <= b.len(),
            bsm == bootstrap_view(*bootstrap_methods),
            m == labels.map(),
            whole == decode_code(bytecode@, 0, pool@, bootstrap_view(*bootstrap_methods), labels.map(), frames_view(frames@)),
            !(whole is Excluded),
            whole == prefixed_entries(entries_view(out@),
                decode_code(b, reader.position() as int, pool@, bsm, m, frames_view(pending@))),
        decreases b.len() - reader.position(),
    {
        let ghost pos = reader.position() as int;
        let opcode_pos = reader.marker() as u16;
        proof {
            lemma_decode_advances(b, pos, pool@, bsm, m);
        }
        let instruction = match read_instruction(&mut reader, pool, labels, bootstrap_methods) {
            Ok(i) => i,
            Err(e) => { return Err(e); },
        };
        let ghost fv = frames_view(pending@);
        let label = labels.get(opcode_pos);
        let here = match label {
            Some(l) => pending.len() > 0 && pending[0].0 == l,
            None => false,
        };
        assert(here == frame_here(fv, label_at(m, pos)));
        let frame = if here {
            let (_, f) = pending.remove(0);
            proof {
                assert(frames_view(pending@) =~= fv.drop_first());
            }
            Some(f)
        } else {
            None
        };
        let entry = InstructionListEntry { label, frame, instruction };
        let ghost ev = entry@;
        let ghost before = entries_view(out@);
        out.push(entry);
        proof {
            assert(entries_view(out@) =~= before.push(ev));
            if let DecodeAll::Done(rest) = decode_code(b, reader.position() as int, pool@, bsm, m, frames_view(pending@)) {
                assert(before + (seq![ev] + rest) =~= entries_view(out@) + rest);
            }
        }
    }
    proof {
        assert(entries_view(out@) + Seq::<ListEntryModel>::empty() =~= entries_view(out@));
    }
    Ok(out)
}

/// The `newarray` instruction (opcode `0xbc`) names its element type by the
/// `atype` operand of the JVMS table: `4` boolean, `5` char, `6` float,
/// `7` double, `8` byte, `9` short, `10` int, `11` long; any other operand is
/// refused. Writing an array type gives back the same operand.
pub proof fn lemma_newarray_atypes(b: Seq<u8>, pos: int, p: Seq<Option<EntryModel>>, bsm: Option<Seq<BootstrapModel>>,
    m: Map<u16, Label>)
    requires
        0 <= pos,
        pos + 2 <= b.len(),
        b[pos] == 0xbc,
    ensures
        b[pos + 1] == 4 ==> decode_insn(b, pos, p, bsm, m) == Decode::Insn(InsnModel::NewArray(ArrayType::Boolean), pos + 2),
        b[pos + 1] == 5 ==> decode_insn(b, pos, p, bsm, m) == Decode::Insn(InsnModel::NewArray(ArrayType::Char), pos + 2),
        b[pos + 1] == 6 ==> decode_insn(b, pos, p, bsm, m) == Decode::Insn(InsnModel::NewArray(ArrayType::Float), pos + 2),
        b[pos + 1] == 7 ==> decode_insn(b, pos, p, bsm, m) == Decode::Insn(InsnModel::NewArray(ArrayType::Double), pos + 2),
        b[pos + 1] == 8 ==> decode_insn(b, pos, p, bsm, m) == Decode::Insn(InsnModel::NewArray(ArrayType::Byte), pos + 2),
        b[pos + 1] == 9 ==> decode_insn(b, pos, p, bsm, m) == Decode::Insn(InsnModel::NewArray(ArrayType::Short), pos + 2),
        b[pos + 1] == 10 ==> decode_insn(b, pos, p, bsm, m) == Decode::Insn(InsnModel::NewArray(ArrayType::Int), pos + 2),
        b[pos + 1] == 11 ==> decode_insn(b, pos, p, bsm, m) == Decode::Insn(InsnModel::NewArray(ArrayType::Long), pos + 2),
        !(4 <= b[pos + 1] <= 11) ==> decode_insn(b, pos, p, bsm, m) == Decode::Fail(Error::UnknownTag),
        atype_of(ArrayType::Boolean) == 4,
        atype_of(ArrayType::Char) == 5,
        atype_of(ArrayType::Float) == 6,
        atype_of(ArrayType::Double) == 7,
        atype_of(ArrayType::Byte) == 8,
        atype_of(ArrayType::Short) == 9,
        atype_of(ArrayType::Int) == 10,
        atype_of(ArrayType::Long) == 11,
{
}

/// How instructions without pool operands decode, by their JVMS opcodes: the
/// instructions without operands decode to themselves; `iload_0` to `aload_3`
/// (`0x1a..=0x2d`) and `istore_0` to `astore_3` (`0x3b..=0x4e`) are the loads and
/// stores `0x15..=0x19` and `0x36..=0x3a` of the locals `0` to `3`; the loads,
/// stores and `ret` take a one-byte index; `iinc` (`0x84`) a one-byte index
/// and a signed one-byte constant; `wide` (`0xc4`) gives them a two-byte index
/// and `iinc` a two-byte constant; `bipush` (`0x10`) and `sipush` (`0x11`) push
/// a signed byte and a signed two-byte value.
pub proof fn lemma_local_and_plain_forms(b: Seq<u8>, pos: int, p: Seq<Option<EntryModel>>,
    bsm: Option<Seq<BootstrapModel>>, m: Map<u16, Label>)
    requires
        0 <= pos < b.len(),
    ensures
        ({
            let op = b[pos];
            let d = decode_insn(b, pos, p, bsm, m);
            &&& (op <= 0x0f || 0x2e <= op <= 0x35 || 0x4f <= op <= 0x83 || 0x85 <= op <= 0x98 || 0xac <= op <= 0xb1
                || op == 0xbe || op == 0xbf || op == 0xc2 || op == 0xc3) ==> d == Decode::Insn(InsnModel::Plain(op), pos + 1)
            &&& 0x1a <= op <= 0x2d ==> d == Decode::Insn(InsnModel::Local((0x15 + (op - 0x1a) / 4) as u8,
                ((op - 0x1a) % 4) as u16), pos + 1)
            &&& 0x3b <= op <= 0x4e ==> d == Decode::Insn(InsnModel::Local((0x36 + (op - 0x3b) / 4) as u8,
                ((op - 0x3b) % 4) as u16), pos + 1)
            &&& ((0x15 <= op <= 0x19) || (0x36 <= op <= 0x3a) || op == 0xa9) && pos + 2 <= b.len()
                ==> d == Decode::Insn(InsnModel::Local(op, b[pos + 1] as u16), pos + 2)
            &&& op == 0x84 && pos + 3 <= b.len()
                ==> d == Decode::Insn(InsnModel::IInc(b[pos + 1] as u16, (b[pos + 2] as i8) as i16), pos + 3)
            &&& op == 0x10 && pos + 2 <= b.len() ==> d == Decode::Insn(InsnModel::BiPush(b[pos + 1] as i8), pos + 2)
            &&& op == 0x11 && pos + 3 <= b.len()
                ==> d == Decode::Insn(InsnModel::SiPush((b[pos + 1] * 256 + b[pos + 2]) as u16 as i16), pos + 3)
            &&& op == 0xc4 && pos + 4 <= b.len()
                && ((0x15 <= b[pos + 1] <= 0x19) || (0x36 <= b[pos + 1] <= 0x3a) || b[pos + 1] == 0xa9)
                ==> d == Decode::Insn(InsnModel::Local(b[pos + 1], (b[pos + 2] * 256 + b[pos + 3]) as u16), pos + 4)
            &&& op == 0xc4 && pos + 6 <= b.len() && b[pos + 1] == 0x84
                ==> d == Decode::Insn(InsnModel::IInc((b[pos + 2] * 256 + b[pos + 3]) as u16,
                    (b[pos + 4] * 256 + b[pos + 5]) as u16 as i16), pos + 6)
        }),
{
}

/// How branches decode: the conditional branches, `goto` and `jsr`
/// (`0x99..=0xa8`, `0xc6`, `0xc7`) jump by the signed two-byte offset after the
/// opcode, counted from the opcode; `goto_w` (`0xc8`) and `jsr_w` (`0xc9`) by a
/// signed four-byte offset, and are read as `goto` and `jsr`. The target is the
/// label at that offset.
pub proof fn lemma_branch_forms(b: Seq<u8>, pos: int, p: Seq<Option<EntryModel>>,
    bsm: Option<Seq<BootstrapModel>>, m: Map<u16, Label>)
    requires
        0 <= pos < b.len(),
        pos <= 0xFFFF,
    ensures
        ({
            let op = b[pos];
            let d = decode_insn(b, pos, p, bsm, m);
            let t16 = pos + (((b[pos + 1] * 256 + b[pos + 2]) as u16) as i16);
            let t32 = pos + (((b[pos + 1] * 0x1000000 + b[pos + 2] * 0x10000 + b[pos + 3] * 0x100 + b[pos + 4]) as u32) as i32);
            &&& ((0x99 <= op <= 0xa8) || op == 0xc6 || op == 0xc7) && pos + 3 <= b.len() && 0 <= t16 <= 0xFFFF
                && m.contains_key(t16 as u16) ==> d == Decode::Insn(InsnModel::Branch(op, m[t16 as u16]), pos + 3)
            &&& op == 0xc8 && pos + 5 <= b.len() && 0 <= t32 <= 0xFFFF && m.contains_key(t32 as u16)
                ==> d == Decode::Insn(InsnModel::Branch(0xa7, m[t32 as u16]), pos + 5)
            &&& op == 0xc9 && pos + 5 <= b.len() && 0 <= t32 <= 0xFFFF && m.contains_key(t32 as u16)
                ==> d == Decode::Insn(InsnModel::Branch(0xa8, m[t32 as u16]), pos + 5)
        }),
{
    if pos + 3 <= b.len() {
        assert(be_u16(b, pos + 1) == b[pos + 1] * 256 + b[pos + 2]);
    }
    if pos + 5 <= b.len() {
        assert(be_u32(b, pos + 1) == b[pos + 1] * 0x1000000 + b[pos + 2] * 0x10000 + b[pos + 3] * 0x100 + b[pos + 4]);
    }
}

} // verus!



