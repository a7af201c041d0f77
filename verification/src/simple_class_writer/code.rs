//! Writing branch instructions while the offsets of their targets may not be
//! known yet: what is written now, and what is left to fill in later.
use vstd::prelude::*;
use std::collections::HashSet;
use crate::bytes::{u16_bytes, u32_bytes, write_u8, write_i16, write_i32, write_u8_slice};
use crate::class_reader::code::{GOTO_W, align4};
use crate::simple_class_writer::labels::Labels;
use crate::tree::code::Label;

verus! {

/// Pads `w` with zero bytes up to a length that is a multiple of four.
pub fn align_to_4_byte_boundary(w: &mut Vec<u8>)
    ensures
        final(w)@.len() == align4(old(w)@.len() as int),
        final(w)@.subrange(0, old(w)@.len() as int) == old(w)@,
        forall|i: int| old(w)@.len() <= i < final(w)@.len() ==> final(w)@[i] == 0,
{
    let ghost w0 = w@;
    let rem = w.len() % 4;
    if rem == 1 {
        write_u8_slice(w, &[0u8, 0u8, 0u8]);
    } else if rem == 2 {
        write_u8_slice(w, &[0u8, 0u8]);
    } else if rem == 3 {
        write_u8_slice(w, &[0u8]);
    }
    assert(w@.subrange(0, w0.len() as int) =~= w0);
}

/// The branch offset from the opcode at `opcode_pos` to `target`.
pub fn compute_signed_offset(opcode_pos: u16, target: u16) -> (r: i32)
    ensures
        r == target - opcode_pos,
{
    (target as i32) - (opcode_pos as i32)
}

/// What is needed to write a [`Label`] as an `i16` or `i32` once its offset is known.
#[derive(Debug, Clone, Copy, PartialEq, Eq, Structural)]
pub struct UnwrittenLabel {
    /// The position of the instruction the branch offset is relative to.
    pub opcode_pos: u16,
    /// The index of the instruction being written, in the list of instructions.
    pub instruction_index: usize,
    /// The label whose offset is to be written.
    pub label: Label,
    /// Where in the output the branch offset goes.
    pub label_write_pos: usize,
    /// `true` for an `i32` branch offset, `false` for an `i16`.
    pub wide: bool,
}

/// Whether a branch offset fits an `i16`.
pub open spec fn fits_i16(x: int) -> bool {
    -0x8000 <= x <= 0x7FFF
}

/// The bytes of a conditional branch that jumps over a `goto_w`: the opposite
/// condition skips the `goto_w` (eight bytes on), which takes the branch.
pub open spec fn if_wide_bytes(opposite_opcode: u8, branch: i32) -> Seq<u8> {
    seq![opposite_opcode] + u16_bytes(8) + seq![GOTO_W] + u32_bytes(branch as u32)
}

/// Writes a conditional branch to `label`, as `opcode` with an `i16` offset if
/// it fits, else as `opposite_opcode` over a `goto_w`. If the offset of the
/// label is not known yet, a placeholder is written and `unwritten` records
/// where the offset goes; `wide` says which instructions need the long form.
pub fn if_helper(w: &mut Vec<u8>, labels: &Labels, wide: &HashSet<usize>, unwritten: &mut Vec<UnwrittenLabel>,
    opcode_pos: u16, instruction_index: usize, label: &Label, opcode: u8, opposite_opcode: u8)
    requires
        labels.targets().contains_key(label.id) ==> fits_i16(labels.targets()[label.id] - opcode_pos)
            || opcode_pos + 3 <= 0xFFFF,
        !labels.targets().contains_key(label.id) && wide@.contains(instruction_index) ==> opcode_pos + 3 <= 0xFFFF,
    ensures
        ({
            let t = labels.targets();
            if t.contains_key(label.id) {
                let target = t[label.id];
                &&& final(unwritten)@ == old(unwritten)@
                &&& if fits_i16(target - opcode_pos) {
                    final(w)@ == old(w)@ + seq![opcode] + u16_bytes((target - opcode_pos) as i16 as u16)
                } else {
                    final(w)@ == old(w)@ + if_wide_bytes(opposite_opcode, (target - (opcode_pos + 3)) as i32)
                }
            } else if wide@.contains(instruction_index) {
                &&& final(unwritten)@ == old(unwritten)@.push(UnwrittenLabel {
                    opcode_pos: (opcode_pos + 3) as u16,
                    instruction_index,
                    label: *label,
                    label_write_pos: (opcode_pos + 4) as usize,
                    wide: true,
                })
                &&& final(w)@ == old(w)@ + if_wide_bytes(opposite_opcode, 0x7FFF_FFFF)
            } else {
                &&& final(unwritten)@ == old(unwritten)@.push(UnwrittenLabel {
                    opcode_pos,
                    instruction_index,
                    label: *label,
                    label_write_pos: (opcode_pos + 1) as usize,
                    wide: false,
                })
                &&& final(w)@ == old(w)@ + seq![opcode] + u16_bytes(0x7FFF)
            }
        }),
{
    proof {
        broadcast use vstd::std_specs::hash::group_hash_axioms;
    }
    let ghost w0 = w@;
    match labels.get(label) {
        Some(target) => {
            let branch = compute_signed_offset(opcode_pos, target);
            if -0x8000 <= branch && branch <= 0x7FFF {
                write_u8(w, opcode);
                write_i16(w, branch as i16);
            } else {
                let branch = compute_signed_offset(opcode_pos + 1 + 2, target);
                write_u8(w, opposite_opcode);
                write_i16(w, 1 + 2 + 1 + 4);
                write_u8(w, GOTO_W);
                write_i32(w, branch);
                assert(w@ =~= w0 + if_wide_bytes(opposite_opcode, branch));
            }
        },
        None => {
            if wide.contains(&instruction_index) {
                unwritten.push(UnwrittenLabel {
                    opcode_pos: opcode_pos + 1 + 2,
                    instruction_index,
                    label: *label,
                    label_write_pos: opcode_pos as usize + 1 + 2 + 1,
                    wide: true,
                });
                write_u8(w, opposite_opcode);
                write_i16(w, 1 + 2 + 1 + 4);
                write_u8(w, GOTO_W);
                write_i32(w, 0x7FFF_FFFF);
                assert(w@ =~= w0 + if_wide_bytes(opposite_opcode, 0x7FFF_FFFF));
            } else {
                unwritten.push(UnwrittenLabel {
                    opcode_pos,
                    instruction_index,
                    label: *label,
                    label_write_pos: opcode_pos as usize + 1,
                    wide: false,
                });
                write_u8(w, opcode);
                write_i16(w, 0x7FFF);
            }
        },
    }
}

/// Writes an unconditional branch to `label`, as `opcode` with an `i16` offset
/// if it fits, else as `wide_opcode` with an `i32` offset. If the offset of the
/// label is not known yet, a placeholder is written and `unwritten` records
/// where the offset goes; `wide` says which instructions need the long form.
pub fn goto_helper(w: &mut Vec<u8>, labels: &Labels, wide: &HashSet<usize>, unwritten: &mut Vec<UnwrittenLabel>,
    opcode_pos: u16, instruction_index: usize, label: &Label, opcode: u8, wide_opcode: u8)
    ensures
        ({
            let t = labels.targets();
            if t.contains_key(label.id) {
                let target = t[label.id];
                &&& final(unwritten)@ == old(unwritten)@
                &&& if fits_i16(target - opcode_pos) {
                    final(w)@ == old(w)@ + seq![opcode] + u16_bytes((target - opcode_pos) as i16 as u16)
                } else {
                    final(w)@ == old(w)@ + seq![wide_opcode] + u32_bytes((target - opcode_pos) as i32 as u32)
                }
            } else {
                &&& final(unwritten)@ == old(unwritten)@.push(UnwrittenLabel {
                    opcode_pos,
                    instruction_index,
                    label: *label,
                    label_write_pos: (opcode_pos + 1) as usize,
                    wide: wide@.contains(instruction_index),
                })
                &&& if wide@.contains(instruction_index) {
                    final(w)@ == old(w)@ + seq![wide_opcode] + u32_bytes(0x7FFF_FFFF)
                } else {
                    final(w)@ == old(w)@ + seq![opcode] + u16_bytes(0x7FFF)
                }
            }
        }),
{
    proof {
        broadcast use vstd::std_specs::hash::group_hash_axioms;
    }
    match labels.get(label) {
        Some(target) => {
            let branch = compute_signed_offset(opcode_pos, target);
            if -0x8000 <= branch && branch <= 0x7FFF {
                write_u8(w, opcode);
                write_i16(w, branch as i16);
            } else {
                write_u8(w, wide_opcode);
                write_i32(w, branch);
            }
        },
        None => {
            if wide.contains(&instruction_index) {
                unwritten.push(UnwrittenLabel {
                    opcode_pos,
                    instruction_index,
                    label: *label,
                    label_write_pos: opcode_pos as usize + 1,
                    wide: true,
                });
                write_u8(w, wide_opcode);
                write_i32(w, 0x7FFF_FFFF);
            } else {
                unwritten.push(UnwrittenLabel {
                    opcode_pos,
                    instruction_index,
                    label: *label,
                    label_write_pos: opcode_pos as usize + 1,
                    wide: false,
                });
                write_u8(w, opcode);
                write_i16(w, 0x7FFF);
            }
        },
    }
}

/// Writes the `i32` branch offset of a switch entry to `label`; if the offset
/// of the label is not known yet, a placeholder is written and `unwritten`
/// records where the offset goes.
pub fn switch_helper(w: &mut Vec<u8>, labels: &Labels, unwritten: &mut Vec<UnwrittenLabel>,
    opcode_pos: u16, instruction_index: usize, label: &Label)
    ensures
        ({
            let t = labels.targets();
            if t.contains_key(label.id) {
                &&& final(unwritten)@ == old(unwritten)@
                &&& final(w)@ == old(w)@ + u32_bytes((t[label.id] - opcode_pos) as i32 as u32)
            } else {
                &&& final(unwritten)@ == old(unwritten)@.push(UnwrittenLabel {
                    opcode_pos,
                    instruction_index,
                    label: *label,
                    label_write_pos: old(w)@.len() as usize,
                    wide: true,
                })
                &&& final(w)@ == old(w)@ + u32_bytes(0x7FFF_FFFF)
            }
        }),
{
    let branch = match labels.get(label) {
        Some(target) => compute_signed_offset(opcode_pos, target),
        None => {
            unwritten.push(UnwrittenLabel {
                opcode_pos,
                instruction_index,
                label: *label,
                label_write_pos: w.len(),
                wide: true,
            });
            0x7FFF_FFFF
        },
    };
    write_i32(w, branch);
}

} // verus!
