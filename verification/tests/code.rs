use duke::bytes::ClassReader;
use duke::class_reader::code::{align_to_4_byte_boundary, create_branch_labels, read_i16_as_branch_target_label,
    read_i32_as_branch_target_label};
use duke::class_reader::labels::Labels;
use duke::class_reader::skip_attributes;
use duke::error::Error;
use duke::simple_class_writer::code::{compute_signed_offset, goto_helper, if_helper, switch_helper, UnwrittenLabel};
use duke::simple_class_writer::labels::Labels as WriteLabels;
use duke::tree::code::{Label, LabelRange};
use std::collections::HashSet;

#[test]
fn labels_are_numbered_in_order() {
    let mut labels = Labels::new(10);
    assert_eq!(labels.get_or_create(5).unwrap(), Label { id: 0 });
    assert_eq!(labels.get_or_create(2).unwrap(), Label { id: 1 });
    assert_eq!(labels.get_or_create(5).unwrap(), Label { id: 0 });
    assert_eq!(labels.get_or_create(10).unwrap_err(), Error::LabelOutOfBounds);
    assert_eq!(labels.get_or_create_check_exclusive(10).unwrap(), Label { id: 2 });
    assert_eq!(labels.get_or_create_check_exclusive(11).unwrap_err(), Error::LabelOutOfBounds);
    assert_eq!(labels.get(2), Some(Label { id: 1 }));
    assert_eq!(labels.get(3), None);
    assert_eq!(labels.try_get(3).unwrap_err(), Error::MissingLabel);
    assert_eq!(labels.create(9), Ok(()));
    assert_eq!(labels.try_get(9).unwrap(), Label { id: 3 });
}

#[test]
fn labels_range() {
    let mut labels = Labels::new(10);
    let range = labels.get_or_create_range(2, 8).unwrap();
    assert_eq!(range, LabelRange { start: Label { id: 0 }, end: Label { id: 1 } });
    assert_eq!(labels.get_or_create_range(2, 9).unwrap_err(), Error::LabelOutOfBounds);
}

#[test]
fn branch_targets() {
    // at position 4: a branch of -4
    let mut reader = ClassReader::new(vec![0xff, 0xfc]);
    assert_eq!(read_i16_as_branch_target_label(&mut reader, 4).unwrap(), 0);
    let mut reader = ClassReader::new(vec![0xff, 0xfb]);
    assert_eq!(read_i16_as_branch_target_label(&mut reader, 4).unwrap_err(), Error::BranchOutOfRange);
    let mut reader = ClassReader::new(vec![0x00, 0x01, 0x00, 0x00]);
    assert_eq!(read_i32_as_branch_target_label(&mut reader, 0).unwrap_err(), Error::BranchOutOfRange);
    let mut reader = ClassReader::new(vec![0x00, 0x00, 0xff, 0xff]);
    assert_eq!(read_i32_as_branch_target_label(&mut reader, 0).unwrap(), 0xffff);
    let mut reader = ClassReader::new(vec![0x00]);
    assert_eq!(read_i32_as_branch_target_label(&mut reader, 0).unwrap_err(), Error::UnexpectedEnd);
}

#[test]
fn align_reader() {
    let mut reader = ClassReader::new(vec![0; 8]);
    reader.skip(1).unwrap();
    align_to_4_byte_boundary(&mut reader).unwrap();
    assert_eq!(reader.marker(), 4);
    align_to_4_byte_boundary(&mut reader).unwrap();
    assert_eq!(reader.marker(), 4);
    let mut reader = ClassReader::new(vec![0; 2]);
    reader.skip(1).unwrap();
    assert_eq!(align_to_4_byte_boundary(&mut reader).unwrap_err(), Error::UnexpectedEnd);
}

#[test]
fn scan_simple_code() {
    // 0: iconst_0; 1: ifeq +6 (to 7); 4: goto -4 (to 0); 7: return
    let code = vec![0x03, 0x99, 0x00, 0x06, 0xa7, 0xff, 0xfc, 0xb1];
    let labels = create_branch_labels(&code).unwrap();
    assert_eq!(labels.get(7), Some(Label { id: 0 }));
    assert_eq!(labels.get(0), Some(Label { id: 1 }));
    assert_eq!(labels.get(1), None);
}

#[test]
fn scan_errors() {
    // a branch past the end of the code
    assert_eq!(create_branch_labels(&vec![0xa7, 0x00, 0x05]).unwrap_err(), Error::LabelOutOfBounds);
    // an unknown opcode
    assert_eq!(create_branch_labels(&vec![0xca]).unwrap_err(), Error::UnknownOpcode);
    // a branch offset cut short
    assert_eq!(create_branch_labels(&vec![0xa7, 0x00]).unwrap_err(), Error::UnexpectedEnd);
    // a bad wide opcode
    assert_eq!(create_branch_labels(&vec![0xc4, 0x00]).unwrap_err(), Error::UnknownOpcode);
}

#[test]
fn scan_tableswitch() {
    // 0: tableswitch, padding to 4, default +16, low 0, high 1, +16, +17; then nops to 18
    let mut code = vec![0xaa, 0, 0, 0];
    code.extend_from_slice(&[0, 0, 0, 16, 0, 0, 0, 0, 0, 0, 0, 1, 0, 0, 0, 16, 0, 0, 0, 17]);
    code.extend_from_slice(&[0x00, 0x00]);
    assert_eq!(code.len(), 26);
    let labels = create_branch_labels(&code).unwrap();
    assert_eq!(labels.get(16), Some(Label { id: 0 }));
    assert_eq!(labels.get(17), Some(Label { id: 1 }));
    // low greater than high
    let mut bad = vec![0xaa, 0, 0, 0];
    bad.extend_from_slice(&[0, 0, 0, 0, 0, 0, 0, 2, 0, 0, 0, 1]);
    assert_eq!(create_branch_labels(&bad).unwrap_err(), Error::InvalidSwitch);
}

#[test]
fn scan_lookupswitch() {
    // 0: lookupswitch, padding, default +12, npairs 1, key 5 -> +13
    let mut code = vec![0xab, 0, 0, 0];
    code.extend_from_slice(&[0, 0, 0, 20, 0, 0, 0, 1, 0, 0, 0, 5, 0, 0, 0, 21]);
    code.extend_from_slice(&[0x00, 0x00]);
    let labels = create_branch_labels(&code).unwrap();
    assert_eq!(labels.get(20), Some(Label { id: 0 }));
    assert_eq!(labels.get(21), Some(Label { id: 1 }));
    let mut bad = vec![0xab, 0, 0, 0];
    bad.extend_from_slice(&[0, 0, 0, 0, 0xff, 0xff, 0xff, 0xff]);
    assert_eq!(create_branch_labels(&bad).unwrap_err(), Error::InvalidSwitch);
}

#[test]
fn skip_attributes_moves_past() {
    // two attributes: lengths 1 and 0
    let mut reader = ClassReader::new(vec![0, 2, 0, 9, 0, 0, 0, 1, 0xaa, 0, 9, 0, 0, 0, 0, 0x42]);
    skip_attributes(&mut reader).unwrap();
    assert_eq!(reader.marker(), 15);
    let mut reader = ClassReader::new(vec![0, 1, 0, 9]);
    assert_eq!(skip_attributes(&mut reader).unwrap_err(), Error::UnexpectedEnd);
}

#[test]
fn signed_offsets() {
    assert_eq!(compute_signed_offset(10, 4), -6);
    assert_eq!(compute_signed_offset(0, 65535), 65535);
}

#[test]
fn writer_labels() {
    let mut labels = WriteLabels::new();
    labels.add_opcode_pos_label(Label { id: 3 }, 40);
    labels.add_opcode_pos_label(Label { id: 4 }, 50);
    labels.add_instruction(0, 0);
    assert_eq!(labels.get(&Label { id: 3 }), Some(40));
    assert_eq!(labels.try_get(&Label { id: 5 }).unwrap_err(), Error::MissingLabel);
    assert_eq!(labels.try_get_range(&LabelRange { start: Label { id: 3 }, end: Label { id: 4 } }).unwrap(), (40, 10));
    labels.next_attempt();
    assert_eq!(labels.get(&Label { id: 3 }), None);
}

#[test]
fn if_helper_forms() {
    let mut labels = WriteLabels::new();
    labels.add_opcode_pos_label(Label { id: 0 }, 2);
    let wide = HashSet::new();
    let mut unwritten = Vec::new();
    let mut w = Vec::new();
    // a known target close by
    if_helper(&mut w, &labels, &wide, &mut unwritten, 10, 0, &Label { id: 0 }, 0x99, 0x9a);
    assert_eq!(w, vec![0x99, 0xff, 0xf8]);
    assert!(unwritten.is_empty());
    // a known target far away
    labels.add_opcode_pos_label(Label { id: 1 }, 40000);
    let mut w = Vec::new();
    if_helper(&mut w, &labels, &wide, &mut unwritten, 0, 0, &Label { id: 1 }, 0x99, 0x9a);
    assert_eq!(w, vec![0x9a, 0x00, 0x08, 0xc8, 0x00, 0x00, 0x9c, 0x3d]);
    // an unknown target
    let mut w = Vec::new();
    if_helper(&mut w, &labels, &wide, &mut unwritten, 7, 3, &Label { id: 9 }, 0x99, 0x9a);
    assert_eq!(w, vec![0x99, 0x7f, 0xff]);
    assert_eq!(unwritten, vec![UnwrittenLabel { opcode_pos: 7, instruction_index: 3, label: Label { id: 9 }, label_write_pos: 8, wide: false }]);
    // an unknown target of an instruction that needs the long form
    let mut wide = HashSet::new();
    wide.insert(4usize);
    let mut unwritten = Vec::new();
    let mut w = Vec::new();
    if_helper(&mut w, &labels, &wide, &mut unwritten, 7, 4, &Label { id: 9 }, 0x99, 0x9a);
    assert_eq!(w, vec![0x9a, 0x00, 0x08, 0xc8, 0x7f, 0xff, 0xff, 0xff]);
    assert_eq!(unwritten, vec![UnwrittenLabel { opcode_pos: 10, instruction_index: 4, label: Label { id: 9 }, label_write_pos: 11, wide: true }]);
}

#[test]
fn goto_and_switch_helper_forms() {
    let mut labels = WriteLabels::new();
    labels.add_opcode_pos_label(Label { id: 0 }, 50000);
    let wide = HashSet::new();
    let mut unwritten = Vec::new();
    let mut w = Vec::new();
    goto_helper(&mut w, &labels, &wide, &mut unwritten, 0, 0, &Label { id: 0 }, 0xa7, 0xc8);
    assert_eq!(w, vec![0xc8, 0x00, 0x00, 0xc3, 0x50]);
    let mut w = vec![1, 2];
    switch_helper(&mut w, &labels, &mut unwritten, 0, 0, &Label { id: 5 });
    assert_eq!(w, vec![1, 2, 0x7f, 0xff, 0xff, 0xff]);
    assert_eq!(unwritten[0].label_write_pos, 2);
    assert!(unwritten[0].wide);
}
