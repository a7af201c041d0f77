//! The first pass over the bytecode of a method: finding the offsets that
//! branch instructions jump to, and giving each of them a [`Label`](crate::tree::code::Label).
use vstd::prelude::*;
use crate::bytes::{ClassReader, be_u16, be_u32};
use crate::class_reader::labels::{Labels, add_label, add_labels};
use crate::error::Error;
use crate::tree::code::{Label, LvIndex};

verus! {

pub const NOP: u8 = 0x00;
pub const DCONST_1: u8 = 0x0f;
pub const BIPUSH: u8 = 0x10;
pub const SIPUSH: u8 = 0x11;
pub const LDC: u8 = 0x12;
pub const LDC_W: u8 = 0x13;
pub const LDC2_W: u8 = 0x14;
pub const ILOAD: u8 = 0x15;
pub const ALOAD: u8 = 0x19;
pub const ILOAD_0: u8 = 0x1a;
pub const SALOAD: u8 = 0x35;
pub const ISTORE: u8 = 0x36;
pub const ASTORE: u8 = 0x3a;
pub const ISTORE_0: u8 = 0x3b;
pub const LXOR: u8 = 0x83;
pub const IINC: u8 = 0x84;
pub const I2L: u8 = 0x85;
pub const DCMPG: u8 = 0x98;
pub const IFEQ: u8 = 0x99;
pub const JSR: u8 = 0xa8;
pub const RET: u8 = 0xa9;
pub const TABLESWITCH: u8 = 0xaa;
pub const LOOKUPSWITCH: u8 = 0xab;
pub const IRETURN: u8 = 0xac;
pub const RETURN: u8 = 0xb1;
pub const GETSTATIC: u8 = 0xb2;
pub const INVOKESTATIC: u8 = 0xb8;
pub const INVOKEINTERFACE: u8 = 0xb9;
pub const INVOKEDYNAMIC: u8 = 0xba;
pub const NEW: u8 = 0xbb;
pub const NEWARRAY: u8 = 0xbc;
pub const ANEWARRAY: u8 = 0xbd;
pub const ARRAYLENGTH: u8 = 0xbe;
pub const ATHROW: u8 = 0xbf;
pub const CHECKCAST: u8 = 0xc0;
pub const INSTANCEOF: u8 = 0xc1;
pub const MONITORENTER: u8 = 0xc2;
pub const MONITOREXIT: u8 = 0xc3;
pub const WIDE: u8 = 0xc4;
pub const MULTIANEWARRAY: u8 = 0xc5;
pub const IFNULL: u8 = 0xc6;
pub const IFNONNULL: u8 = 0xc7;
pub const GOTO_W: u8 = 0xc8;
pub const JSR_W: u8 = 0xc9;

/// The number of operand bytes of an instruction that has a fixed number of
/// them and no branch offset; `-1` for every other opcode.
pub open spec fn operand_len(op: u8) -> int {
    if op <= DCONST_1 || (ILOAD_0 <= op <= SALOAD) || (ISTORE_0 <= op <= LXOR) || (I2L <= op <= DCMPG)
        || (IRETURN <= op <= RETURN) || op == ARRAYLENGTH || op == ATHROW || op == MONITORENTER || op == MONITOREXIT {
        0
    } else if op == BIPUSH || op == LDC || (ILOAD <= op <= ALOAD) || (ISTORE <= op <= ASTORE) || op == RET || op == NEWARRAY {
        1
    } else if op == SIPUSH || op == LDC_W || op == LDC2_W || op == IINC || (GETSTATIC <= op <= INVOKESTATIC)
        || op == NEW || op == ANEWARRAY || op == CHECKCAST || op == INSTANCEOF {
        2
    } else if op == MULTIANEWARRAY {
        3
    } else if op == INVOKEINTERFACE || op == INVOKEDYNAMIC {
        4
    } else {
        -1
    }
}

/// The signed 16-bit value at `i`.
pub open spec fn i16_at(b: Seq<u8>, i: int) -> int {
    (be_u16(b, i) as i16) as int
}

/// The signed 32-bit value at `i`.
pub open spec fn i32_at(b: Seq<u8>, i: int) -> int {
    (be_u32(b, i) as i32) as int
}

/// The target of the 16-bit branch offset at `at`, for the opcode at `opcode_pos`.
pub open spec fn branch16(b: Seq<u8>, opcode_pos: u16, at: int) -> Result<u16, Error> {
    if at + 2 > b.len() {
        Err(Error::UnexpectedEnd)
    } else if 0 <= opcode_pos + i16_at(b, at) <= 0xFFFF {
        Ok((opcode_pos + i16_at(b, at)) as u16)
    } else {
        Err(Error::BranchOutOfRange)
    }
}

/// The target of the 32-bit branch offset at `at`, for the opcode at `opcode_pos`.
pub open spec fn branch32(b: Seq<u8>, opcode_pos: u16, at: int) -> Result<u16, Error> {
    if at + 4 > b.len() {
        Err(Error::UnexpectedEnd)
    } else if 0 <= opcode_pos + i32_at(b, at) <= 0xFFFF {
        Ok((opcode_pos + i32_at(b, at)) as u16)
    } else {
        Err(Error::BranchOutOfRange)
    }
}

/// A branch target, which must lie inside the code of length `len`.
pub open spec fn in_code(r: Result<u16, Error>, len: int) -> Result<u16, Error> {
    match r {
        Ok(t) => if (t as int) < len { Ok(t) } else { Err(Error::LabelOutOfBounds) },
        Err(e) => Err(e),
    }
}

/// The targets of `n` switch entries from `at` on, each `stride` bytes long with
/// its 32-bit branch offset at `offset` within it, and the position after them.
pub open spec fn switch_targets(b: Seq<u8>, opcode_pos: u16, at: int, n: int, stride: int, offset: int)
    -> Result<(Seq<u16>, int), Error>
    decreases n,
{
    if n <= 0 {
        Ok((Seq::empty(), at))
    } else {
        match in_code(branch32(b, opcode_pos, at + offset), b.len() as int) {
            Ok(t) => match switch_targets(b, opcode_pos, at + stride, n - 1, stride, offset) {
                Ok((ts, end)) => Ok((seq![t] + ts, end)),
                Err(e) => Err(e),
            },
            Err(e) => Err(e),
        }
    }
}

/// The first multiple of four at or after `p`: where a switch's operands start.
pub open spec fn align4(p: int) -> int {
    p + (4 - p % 4) % 4
}

/// The outcome of looking at one instruction.
pub ghost enum Step {
    /// The position of the next instruction, and the branch targets met.
    Next(int, Seq<u16>),
    /// Reading the instruction failed.
    Fail(Error),
    /// The length of a `tableswitch` does not fit a 32-bit signed integer.
    Overflow,
}

/// Looks at the instruction at `pos` of the code `b`.
pub open spec fn scan_insn(b: Seq<u8>, pos: int) -> Step {
    let op = b[pos];
    let p = pos + 1;
    let len = b.len() as int;
    if operand_len(op) >= 0 {
        Step::Next(p + operand_len(op), Seq::empty())
    } else if op == WIDE {
        if p >= len {
            Step::Fail(Error::UnexpectedEnd)
        } else {
            let w = b[p];
            if (ILOAD <= w <= ALOAD) || (ISTORE <= w <= ASTORE) || w == RET {
                Step::Next(p + 3, Seq::empty())
            } else if w == IINC {
                Step::Next(p + 5, Seq::empty())
            } else {
                Step::Fail(Error::UnknownOpcode)
            }
        }
    } else if (IFEQ <= op <= JSR) || op == IFNULL || op == IFNONNULL {
        match in_code(branch16(b, pos as u16, p), len) {
            Ok(t) => Step::Next(p + 2, seq![t]),
            Err(e) => Step::Fail(e),
        }
    } else if op == GOTO_W || op == JSR_W {
        match in_code(branch32(b, pos as u16, p), len) {
            Ok(t) => Step::Next(p + 4, seq![t]),
            Err(e) => Step::Fail(e),
        }
    } else if op == TABLESWITCH || op == LOOKUPSWITCH {
        let q = align4(p);
        if q > len {
            Step::Fail(Error::UnexpectedEnd)
        } else {
            match in_code(branch32(b, pos as u16, q), len) {
                Err(e) => Step::Fail(e),
                Ok(d) => if op == TABLESWITCH {
                    if q + 8 > len || q + 12 > len {
                        Step::Fail(Error::UnexpectedEnd)
                    } else if i32_at(b, q + 4) > i32_at(b, q + 8) {
                        Step::Fail(Error::InvalidSwitch)
                    } else if i32_at(b, q + 8) - i32_at(b, q + 4) >= 0x7FFF_FFFF {
                        Step::Overflow
                    } else {
                        match switch_targets(b, pos as u16, q + 12, i32_at(b, q + 8) - i32_at(b, q + 4) + 1, 4, 0) {
                            Ok((ts, end)) => Step::Next(end, seq![d] + ts),
                            Err(e) => Step::Fail(e),
                        }
                    }
                } else {
                    if q + 8 > len {
                        Step::Fail(Error::UnexpectedEnd)
                    } else if i32_at(b, q + 4) < 0 {
                        Step::Fail(Error::InvalidSwitch)
                    } else {
                        match switch_targets(b, pos as u16, q + 8, i32_at(b, q + 4), 8, 4) {
                            Ok((ts, end)) => Step::Next(end, seq![d] + ts),
                            Err(e) => Step::Fail(e),
                        }
                    }
                },
            }
        }
    } else {
        Step::Fail(Error::UnknownOpcode)
    }
}

/// The outcome of looking at all instructions from `pos` on.
pub ghost enum Scan {
    /// All instructions were read; these are the branch targets, in order.
    Done(Seq<u16>),
    /// Reading an instruction failed.
    Fail(Error),
    /// The operands of an instruction reach past the end of the code, or the
    /// length of a `tableswitch` does not fit a 32-bit signed integer.
    Overrun,
}

/// The position after `n` switch entries is after their start.
pub proof fn lemma_switch_targets_end(b: Seq<u8>, opcode_pos: u16, at: int, n: int, stride: int, offset: int)
    requires
        stride > 0,
    ensures
        switch_targets(b, opcode_pos, at, n, stride, offset) matches Ok((_, end)) ==> end >= at,
    decreases n,
{
    if n > 0 {
        lemma_switch_targets_end(b, opcode_pos, at + stride, n - 1, stride, offset);
    }
}

/// An instruction that was read is followed by another position.
pub proof fn lemma_scan_insn_advances(b: Seq<u8>, pos: int)
    requires
        0 <= pos < b.len(),
    ensures
        scan_insn(b, pos) matches Step::Next(p2, _) ==> p2 > pos,
{
    let p = pos + 1;
    let q = align4(p);
    lemma_switch_targets_end(b, pos as u16, q + 12, i32_at(b, q + 8) - i32_at(b, q + 4) + 1, 4, 0);
    lemma_switch_targets_end(b, pos as u16, q + 8, i32_at(b, q + 4), 8, 4);
}

/// Looks at all instructions from `pos` on.
pub open spec fn scan_code(b: Seq<u8>, pos: int) -> Scan
    decreases b.len() - pos,
{
    if pos < 0 || pos >= b.len() {
        Scan::Done(Seq::empty())
    } else {
        match scan_insn(b, pos) {
            Step::Next(p2, ts) => if p2 > b.len() {
                Scan::Overrun
            } else {
                proof {
                    lemma_scan_insn_advances(b, pos);
                }
                match scan_code(b, p2) {
                    Scan::Done(rest) => Scan::Done(ts + rest),
                    other => other,
                }
            },
            Step::Fail(e) => Scan::Fail(e),
            Step::Overflow => Scan::Overrun,
        }
    }
}


/// Targets found first, then the outcome of reading the rest.
pub open spec fn prepend(done: Seq<u16>, r: Result<(Seq<u16>, int), Error>) -> Result<(Seq<u16>, int), Error> {
    match r {
        Ok((ts, end)) => Ok((done + ts, end)),
        Err(e) => Err(e),
    }
}

/// Targets found first, then the outcome of scanning the rest.
pub open spec fn prefixed(done: Seq<u16>, s: Scan) -> Scan {
    match s {
        Scan::Done(rest) => Scan::Done(done + rest),
        other => other,
    }
}

/// Asking for labels one sequence after another.
pub proof fn lemma_add_labels_concat(m: Map<u16, Label>, a: Seq<u16>, b: Seq<u16>)
    ensures
        add_labels(m, a + b) == add_labels(add_labels(m, a), b),
    decreases a.len(),
{
    if a.len() == 0 {
        assert(a + b =~= b);
    } else {
        assert((a + b).skip(1) =~= a.skip(1) + b);
        assert((a + b)[0] == a[0]);
        lemma_add_labels_concat(add_label(m, a[0]), a.skip(1), b);
    }
}

/// Asking for the labels of a single offset.
pub proof fn lemma_add_labels_single(m: Map<u16, Label>, t: u16)
    ensures
        add_labels(m, seq![t]) == add_label(m, t),
{
    assert(seq![t].skip(1) =~= Seq::<u16>::empty());
    assert(seq![t][0] == t);
    assert(add_labels(add_label(m, t), Seq::<u16>::empty()) == add_label(m, t));
}

/// Reads a local variable index of one byte.
pub fn read_u8_as_local_variable(reader: &mut ClassReader) -> (r: Result<LvIndex, Error>)
    ensures
        ClassReader::stepped(*old(reader), *final(reader), 1, r is Ok),
        r is Ok ==> r == Ok::<LvIndex, Error>(LvIndex { index: old(reader).data()[old(reader).position() as int] as u16 }),
        r is Err ==> r == Err::<LvIndex, Error>(Error::UnexpectedEnd),
{
    let index = reader.read_u8()?;
    Ok(LvIndex { index: index as u16 })
}

/// Reads a local variable index of two bytes.
pub fn read_u16_as_local_variable(reader: &mut ClassReader) -> (r: Result<LvIndex, Error>)
    ensures
        ClassReader::stepped(*old(reader), *final(reader), 2, r is Ok),
        r is Ok ==> r == Ok::<LvIndex, Error>(LvIndex { index: be_u16(old(reader).data(), old(reader).position() as int) }),
        r is Err ==> r == Err::<LvIndex, Error>(Error::UnexpectedEnd),
{
    let index = reader.read_u16()?;
    Ok(LvIndex { index })
}

/// Reads a 16-bit branch offset and adds it to `opcode_pos`.
///
/// Fails with [`Error::UnexpectedEnd`] if the offset is missing (the position
/// stays), and with [`Error::BranchOutOfRange`] if the target is not a `u16`
/// (the offset has been read).
pub fn read_i16_as_branch_target_label(reader: &mut ClassReader, opcode_pos: u16) -> (r: Result<u16, Error>)
    ensures
        final(reader).data() == old(reader).data(),
        r == branch16(old(reader).data(), opcode_pos, old(reader).position() as int),
        old(reader).has(2) ==> final(reader).position() == old(reader).position() + 2,
        !old(reader).has(2) ==> final(reader).position() == old(reader).position(),
{
    let branch = reader.read_i16()?;
    let target: i32 = opcode_pos as i32 + branch as i32;
    if 0 <= target && target <= 0xFFFF {
        Ok(target as u16)
    } else {
        Err(Error::BranchOutOfRange)
    }
}

/// Reads a 32-bit branch offset and adds it to `opcode_pos`.
///
/// Fails with [`Error::UnexpectedEnd`] if the offset is missing (the position
/// stays), and with [`Error::BranchOutOfRange`] if the target is not a `u16`
/// (the offset has been read).
pub fn read_i32_as_branch_target_label(reader: &mut ClassReader, opcode_pos: u16) -> (r: Result<u16, Error>)
    ensures
        final(reader).data() == old(reader).data(),
        r == branch32(old(reader).data(), opcode_pos, old(reader).position() as int),
        old(reader).has(4) ==> final(reader).position() == old(reader).position() + 4,
        !old(reader).has(4) ==> final(reader).position() == old(reader).position(),
{
    let branch = reader.read_i32()?;
    let target: i64 = opcode_pos as i64 + branch as i64;
    if 0 <= target && target <= 0xFFFF {
        Ok(target as u16)
    } else {
        Err(Error::BranchOutOfRange)
    }
}

/// Skips the padding bytes before the operands of a switch, up to the next
/// position that is a multiple of four.
pub fn align_to_4_byte_boundary(reader: &mut ClassReader) -> (r: Result<(), Error>)
    ensures
        final(reader).data() == old(reader).data(),
        (old(reader).position() % 4 == 0 || align4(old(reader).position() as int) <= old(reader).data().len()) ==> r is Ok
            && final(reader).position() == align4(old(reader).position() as int),
        !(old(reader).position() % 4 == 0 || align4(old(reader).position() as int) <= old(reader).data().len())
            ==> r == Err::<(), Error>(Error::UnexpectedEnd),
{
    let m = reader.marker();
    assert(m & 3 == m % 4) by (bit_vector);
    let rem = m & 3;
    assert(rem == 0 ==> align4(m as int) == m);
    assert(rem == 1 ==> align4(m as int) == m + 3);
    assert(rem == 2 ==> align4(m as int) == m + 2);
    assert(rem == 3 ==> align4(m as int) == m + 1);
    if rem == 1 {
        reader.read_u8()?;
        reader.read_u8()?;
        reader.read_u8()?;
    } else if rem == 2 {
        reader.read_u8()?;
        reader.read_u8()?;
    } else if rem == 3 {
        reader.read_u8()?;
    }
    Ok(())
}

/// The number of operand bytes of an instruction with a fixed number of
/// them and no branch offset; `-1` for every other opcode.
pub(crate) fn operand_len_of(op: u8) -> (r: i8)
    ensures
        r as int == operand_len(op),
{
    if op <= DCONST_1 || (ILOAD_0 <= op && op <= SALOAD) || (ISTORE_0 <= op && op <= LXOR) || (I2L <= op && op <= DCMPG)
        || (IRETURN <= op && op <= RETURN) || op == ARRAYLENGTH || op == ATHROW || op == MONITORENTER || op == MONITOREXIT {
        0
    } else if op == BIPUSH || op == LDC || (ILOAD <= op && op <= ALOAD) || (ISTORE <= op && op <= ASTORE) || op == RET
        || op == NEWARRAY {
        1
    } else if op == SIPUSH || op == LDC_W || op == LDC2_W || op == IINC || (GETSTATIC <= op && op <= INVOKESTATIC)
        || op == NEW || op == ANEWARRAY || op == CHECKCAST || op == INSTANCEOF {
        2
    } else if op == MULTIANEWARRAY {
        3
    } else if op == INVOKEINTERFACE || op == INVOKEDYNAMIC {
        4
    } else {
        -1
    }
}

/// Reads `n` switch entries, creating the label of each target.
fn read_switch_targets(reader: &mut ClassReader, labels: &mut Labels, opcode_pos: u16, n: u32, lookup: bool)
    -> (r: Result<(), Error>)
    requires
        old(labels).wf(),
        old(labels).code_length() == old(reader).data().len(),
    ensures
        final(reader).data() == old(reader).data(),
        final(labels).wf(),
        final(labels).code_length() == old(labels).code_length(),
        match switch_targets(old(reader).data(), opcode_pos, old(reader).position() as int, n as int,
            if lookup { 8 } else { 4 }, if lookup { 4 } else { 0 }) {
            Ok((ts, end)) => r is Ok && final(reader).position() == end
                && final(labels).map() == add_labels(old(labels).map(), ts),
            Err(e) => r == Err::<(), Error>(e),
        },
{
    let ghost b = reader.data();
    let ghost stride: int = if lookup { 8 } else { 4 };
    let ghost offset: int = if lookup { 4 } else { 0 };
    let ghost whole = switch_targets(b, opcode_pos, reader.position() as int, n as int, stride, offset);
    let ghost m0 = labels.map();
    let ghost mut done: Seq<u16> = Seq::empty();
    let mut k: u32 = 0;
    assert(done + Seq::<u16>::empty() =~= Seq::<u16>::empty());
    assert(whole == prepend(done, whole)) by {
        match whole {
            Ok((ts, end)) => { assert(done + ts =~= ts); },
            Err(e) => {},
        }
    }
    while k < n
        invariant
            reader.data() == b,
            b == old(reader).data(),
            labels.wf(),
            labels.code_length() == b.len(),
            labels.code_length() == old(labels).code_length(),
            k <= n,
            stride == (if lookup { 8int } else { 4int }),
            offset == (if lookup { 4int } else { 0int }),
            whole == prepend(done, switch_targets(b, opcode_pos, reader.position() as int, n - k, stride, offset)),
            whole == switch_targets(old(reader).data(), opcode_pos, old(reader).position() as int, n as int, stride, offset),
            m0 == old(labels).map(),
            labels.map() == add_labels(m0, done),
        decreases n - k,
    {
        let ghost p = reader.position() as int;
        let ghost rest = switch_targets(b, opcode_pos, p + stride, n - k - 1, stride, offset);
        assert(switch_targets(b, opcode_pos, p, n - k, stride, offset) == match in_code(branch32(b, opcode_pos, p + offset), b.len() as int) {
            Ok(t) => match rest {
                Ok((ts, end)) => Ok((seq![t] + ts, end)),
                Err(e) => Err(e),
            },
            Err(e) => Err::<(Seq<u16>, int), Error>(e),
        });
        if lookup {
            match reader.read_i32() {
                Ok(_key) => {},
                Err(e) => {
                    assert(branch32(b, opcode_pos, p + offset) == Err::<u16, Error>(Error::UnexpectedEnd));
                    return Err(e);
                },
            }
        }
        let t = match read_i32_as_branch_target_label(reader, opcode_pos) {
            Ok(t) => t,
            Err(e) => {
                return Err(e);
            },
        };
        match labels.create(t) {
            Ok(()) => {},
            Err(e) => {
                return Err(e);
            },
        }
        proof {
            lemma_add_labels_concat(m0, done, seq![t]);
            lemma_add_labels_single(add_labels(m0, done), t);
            match switch_targets(b, opcode_pos, p + stride, n - k - 1, stride, offset) {
                Ok((ts, end)) => {
                    assert(done + (seq![t] + ts) =~= done.push(t) + ts);
                },
                Err(e) => {},
            }
            assert(done + seq![t] =~= done.push(t));
            done = done.push(t);
        }
        k = k + 1;
    }
    proof {
        assert(done + Seq::<u16>::empty() =~= done);
    }
    Ok(())
}

/// Reads the instruction at the position of `reader`, creating the labels of
/// its branch targets.
fn scan_instruction(reader: &mut ClassReader, labels: &mut Labels) -> (r: Result<(), Error>)
    requires
        old(labels).wf(),
        old(labels).code_length() == old(reader).data().len(),
        old(reader).position() < old(reader).data().len(),
        old(reader).data().len() <= 0xFFFF,
        !(scan_insn(old(reader).data(), old(reader).position() as int) is Overflow),
    ensures
        final(reader).data() == old(reader).data(),
        final(labels).wf(),
        final(labels).code_length() == old(labels).code_length(),
        match scan_insn(old(reader).data(), old(reader).position() as int) {
            Step::Next(p2, ts) => r is Ok && final(reader).position() == p2
                && final(labels).map() == add_labels(old(labels).map(), ts),
            Step::Fail(e) => r == Err::<(), Error>(e),
            Step::Overflow => false,
        },
{
    let ghost b = reader.data();
    let ghost pos = reader.position() as int;
    let ghost m0 = labels.map();
    let opcode_pos = reader.marker() as u16;
    let op = reader.read_u8()?;
    let ob = operand_len_of(op);
    proof {
        assert(add_labels(m0, Seq::<u16>::empty()) == m0);
    }
    if ob >= 0 {
        reader.skip(ob as i64)?;
        Ok(())
    } else if op == WIDE {
        let w = reader.read_u8()?;
        if (ILOAD <= w && w <= ALOAD) || (ISTORE <= w && w <= ASTORE) || w == RET {
            reader.skip(2)?;
            Ok(())
        } else if w == IINC {
            reader.skip(4)?;
            Ok(())
        } else {
            Err(Error::UnknownOpcode)
        }
    } else if (IFEQ <= op && op <= JSR) || op == IFNULL || op == IFNONNULL {
        let t = read_i16_as_branch_target_label(reader, opcode_pos)?;
        labels.create(t)?;
        proof {
            lemma_add_labels_single(m0, t);
        }
        Ok(())
    } else if op == GOTO_W || op == JSR_W {
        let t = read_i32_as_branch_target_label(reader, opcode_pos)?;
        labels.create(t)?;
        proof {
            lemma_add_labels_single(m0, t);
        }
        Ok(())
    } else if op == TABLESWITCH || op == LOOKUPSWITCH {
        align_to_4_byte_boundary(reader)?;
        let d = read_i32_as_branch_target_label(reader, opcode_pos)?;
        labels.create(d)?;
        let ghost m1 = labels.map();
        let n: u32 = if op == TABLESWITCH {
            let low = reader.read_i32()?;
            let high = reader.read_i32()?;
            if low > high {
                return Err(Error::InvalidSwitch);
            }
            (high as i64 - low as i64 + 1) as u32
        } else {
            let npairs = reader.read_i32()?;
            if npairs < 0 {
                return Err(Error::InvalidSwitch);
            }
            npairs as u32
        };
        let ghost q = reader.position() as int;
        read_switch_targets(reader, labels, opcode_pos, n, op == LOOKUPSWITCH)?;
        proof {
            lemma_add_labels_single(m0, d);
            match switch_targets(b, opcode_pos, q, n as int, if op == LOOKUPSWITCH { 8 } else { 4 },
                if op == LOOKUPSWITCH { 4 } else { 0 }) {
                Ok((ts, end)) => {
                    lemma_add_labels_concat(m0, seq![d], ts);
                },
                Err(e) => {},
            }
        }
        Ok(())
    } else {
        Err(Error::UnknownOpcode)
    }
}

/// Reads all instructions of `bytecode` and creates the label of every branch
/// target: the first pass over the code of a method.
///
/// Branch targets must lie inside the code; labels are numbered in the order
/// their targets first occur.
pub fn create_branch_labels(bytecode: &Vec<u8>) -> (r: Result<Labels, Error>)
    requires
        0 < bytecode.len() <= 0xFFFF,
        !(scan_code(bytecode@, 0) is Overrun),
    ensures
        match scan_code(bytecode@, 0) {
            Scan::Done(ts) => r matches Ok(l) && l.wf() && l.code_length() == bytecode.len()
                && l.map() == add_labels(Map::empty(), ts),
            Scan::Fail(e) => r is Err && r == Err::<Labels, Error>(e),
            Scan::Overrun => false,
        },
{
    let ghost b = bytecode@;
    let len = bytecode.len();
    let mut labels = Labels::new(len as u16);
    let copy = bytecode.clone();
    assert(copy@ =~= b);
    let mut reader = ClassReader::new(copy);
    let ghost mut done: Seq<u16> = Seq::empty();
    assert(prefixed(done, scan_code(b, 0)) == scan_code(b, 0)) by {
        match scan_code(b, 0) {
            Scan::Done(rest) => { assert(done + rest =~= rest); },
            _ => {},
        }
    }
    while reader.marker() < len
        invariant
            reader.data() == b,
            b == bytecode@,
            b.len() == len,
            0 < len <= 0xFFFF,
            reader.position() <= len,
            labels.wf(),
            labels.code_length() == len,
            labels.map() == add_labels(Map::empty(), done),
            scan_code(b, 0) == prefixed(done, scan_code(b, reader.position() as int)),
            !(scan_code(b, 0) is Overrun),
        decreases len - reader.position(),
    {
        let ghost pos = reader.position() as int;
        proof {
            lemma_scan_insn_advances(b, pos);
        }
        scan_instruction(&mut reader, &mut labels)?;
        proof {
            match scan_insn(b, pos) {
                Step::Next(p2, ts) => {
                    lemma_add_labels_concat(Map::empty(), done, ts);
                    match scan_code(b, p2) {
                        Scan::Done(rest) => {
                            assert(done + (ts + rest) =~= (done + ts) + rest);
                        },
                        _ => {},
                    }
                    done = done + ts;
                },
                _ => {},
            }
        }
    }
    proof {
        assert(done + Seq::<u16>::empty() =~= done);
    }
    Ok(labels)
}

} // verus!
