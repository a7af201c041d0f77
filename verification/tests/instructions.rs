use duke::bytes::ClassReader;
use duke::class_reader::bootstrap::{read_bootstrap_methods, BootstrapMethodRead};
use duke::class_reader::code::create_branch_labels;
use duke::class_reader::code_attribute::read_code;
use duke::class_reader::instructions::{read_instruction, read_instructions};
use duke::class_reader::pool::PoolRead;
use duke::error::Error;
use duke::jstring::JavaString;
use duke::tree::class::{ClassName, ObjClassName};
use duke::tree::code::{ArrayType, Handle, Label, LvIndex};
use duke::tree::field::{FieldDescriptor, FieldName, FieldRef};
use duke::tree::instruction::{Instruction, Loadable};
use duke::tree::method::{MethodDescriptor, MethodName, MethodRef};
use duke::visitor::CodeInterests;

fn js(s: &str) -> JavaString {
    JavaString::from_str(s)
}

fn utf8(bytes: &mut Vec<u8>, s: &str) {
    bytes.push(1);
    bytes.push(0);
    bytes.push(s.len() as u8);
    bytes.extend_from_slice(s.as_bytes());
}

/// 1 "A", 2 Class A, 3 "f", 4 "I", 5 NameAndType f I, 6 FieldRef A.f, 7 Integer 7,
/// 8 String "A", 9 "m", 10 "()V", 11 NameAndType m ()V, 12 MethodRef A.m,
/// 13 InterfaceMethodRef A.m, 14 MethodHandle invokestatic 12, 15 InvokeDynamic 0 11,
/// 16 "LineNumberTable", 17 Float bits, 18 Long 5 (and 19)
fn pool() -> PoolRead {
    let mut b = vec![0, 20];
    utf8(&mut b, "A");
    b.extend_from_slice(&[7, 0, 1]);
    utf8(&mut b, "f");
    utf8(&mut b, "I");
    b.extend_from_slice(&[12, 0, 3, 0, 4]);
    b.extend_from_slice(&[9, 0, 2, 0, 5]);
    b.extend_from_slice(&[3, 0, 0, 0, 7]);
    b.extend_from_slice(&[8, 0, 1]);
    utf8(&mut b, "m");
    utf8(&mut b, "()V");
    b.extend_from_slice(&[12, 0, 9, 0, 10]);
    b.extend_from_slice(&[10, 0, 2, 0, 11]);
    b.extend_from_slice(&[11, 0, 2, 0, 11]);
    b.extend_from_slice(&[15, 6, 0, 12]);
    b.extend_from_slice(&[18, 0, 0, 0, 11]);
    utf8(&mut b, "LineNumberTable");
    b.extend_from_slice(&[4, 0x3f, 0x80, 0, 0]);
    b.extend_from_slice(&[5, 0, 0, 0, 0, 0, 0, 0, 5]);
    PoolRead::read(&mut ClassReader::new(b)).unwrap()
}

/// One bootstrap method: the handle at 14, with the argument 7.
fn bootstrap(pool: &PoolRead) -> Option<Vec<BootstrapMethodRead>> {
    let mut reader = ClassReader::new(vec![0, 1, 0, 14, 0, 1, 0, 7]);
    Some(read_bootstrap_methods(&mut reader, pool).unwrap())
}

fn a_method() -> MethodRef {
    MethodRef {
        class: ClassName::from_inner_unchecked(js("A")),
        name: MethodName::from_inner_unchecked(js("m")),
        desc: MethodDescriptor::from_inner_unchecked(js("()V")),
    }
}

/// Decodes the code `code` whole.
fn decode(code: Vec<u8>) -> Result<Vec<Instruction>, Error> {
    let pool = pool();
    let bsm = bootstrap(&pool);
    let labels = create_branch_labels(&code)?;
    let entries = read_instructions(&code, &pool, &labels, &bsm, Vec::new())?;
    Ok(entries.into_iter().map(|e| e.instruction).collect())
}

#[test]
fn decodes_plain_and_local_instructions() {
    let code = vec![0x00, 0x1b, 0x2d, 0x15, 0x07, 0x3a, 0x09, 0x4e, 0xc4, 0x15, 0x01, 0x00, 0xb1];
    assert_eq!(
        decode(code).unwrap(),
        vec![
            Instruction::Nop,
            Instruction::ILoad(LvIndex { index: 1 }),
            Instruction::ALoad(LvIndex { index: 3 }),
            Instruction::ILoad(LvIndex { index: 7 }),
            Instruction::AStore(LvIndex { index: 9 }),
            Instruction::AStore(LvIndex { index: 3 }),
            Instruction::ILoad(LvIndex { index: 256 }),
            Instruction::Return,
        ]
    );
}

#[test]
fn decodes_immediates_and_iinc() {
    let code = vec![0x10, 0xff, 0x11, 0x01, 0x00, 0x84, 0x02, 0xfe, 0xc4, 0x84, 0x01, 0x00, 0x80, 0x00];
    assert_eq!(
        decode(code).unwrap(),
        vec![
            Instruction::BiPush(-1),
            Instruction::SiPush(256),
            Instruction::IInc(LvIndex { index: 2 }, -2),
            Instruction::IInc(LvIndex { index: 256 }, -32768),
        ]
    );
}

#[test]
fn decodes_pool_instructions() {
    let code = vec![
        0x12, 7, 0x12, 8, 0x13, 0, 17, 0x14, 0, 18, 0x12, 2, 0x12, 14,
        0xb2, 0, 6, 0xb6, 0, 12, 0xb8, 0, 13, 0xb9, 0, 13, 1, 0,
        0xbb, 0, 2, 0xbc, 10, 0xc5, 0, 2, 3,
    ];
    let field = FieldRef {
        class: ObjClassName::from_inner_unchecked(js("A")),
        name: FieldName::from_inner_unchecked(js("f")),
        desc: FieldDescriptor::from_inner_unchecked(js("I")),
    };
    assert_eq!(
        decode(code).unwrap(),
        vec![
            Instruction::Ldc(Loadable::Integer(7)),
            Instruction::Ldc(Loadable::String(js("A"))),
            Instruction::Ldc(Loadable::Float(0x3f80_0000)),
            Instruction::Ldc(Loadable::Long(5)),
            Instruction::Ldc(Loadable::Class(ClassName::from_inner_unchecked(js("A")))),
            Instruction::Ldc(Loadable::MethodHandle(Handle::InvokeStatic(a_method(), false))),
            Instruction::GetStatic(field),
            Instruction::InvokeVirtual(a_method()),
            Instruction::InvokeStatic(a_method(), true),
            Instruction::InvokeInterface(a_method()),
            Instruction::New(ClassName::from_inner_unchecked(js("A"))),
            Instruction::NewArray(ArrayType::Int),
            Instruction::MultiANewArray(ClassName::from_inner_unchecked(js("A")), 3),
        ]
    );
}

#[test]
fn decodes_invokedynamic() {
    let code = vec![0xba, 0, 15, 0, 0];
    let insns = decode(code).unwrap();
    match &insns[0] {
        Instruction::InvokeDynamic(d) => {
            assert_eq!(d.name, MethodName::from_inner_unchecked(js("m")));
            assert_eq!(d.descriptor, MethodDescriptor::from_inner_unchecked(js("()V")));
            assert_eq!(d.handle, Handle::InvokeStatic(a_method(), false));
            assert_eq!(d.arguments, vec![Loadable::Integer(7)]);
        },
        other => panic!("unexpected {:?}", other),
    }
}

#[test]
fn decodes_branches_and_switches() {
    // 0: goto +4 (to 4); 3: nop; 4: tableswitch (padded to 8), default 0, 1..=2 -> 3, 4
    // 28: lookupswitch (padded to 32), default 3, one pair: 5 -> 28
    let mut code = vec![0xa7, 0x00, 0x04, 0x00, 0xaa, 0, 0, 0];
    code.extend_from_slice(&[0xff, 0xff, 0xff, 0xfc]);
    code.extend_from_slice(&[0, 0, 0, 1, 0, 0, 0, 2]);
    code.extend_from_slice(&[0xff, 0xff, 0xff, 0xff, 0, 0, 0, 0]);
    assert_eq!(code.len(), 28);
    code.extend_from_slice(&[0xab, 0, 0, 0]);
    code.extend_from_slice(&[0xff, 0xff, 0xff, 0xe7]);
    code.extend_from_slice(&[0, 0, 0, 1, 0, 0, 0, 5, 0, 0, 0, 0]);
    let insns = decode(code).unwrap();
    // labels in the order the first pass meets the targets: 4, 0, 3, 28
    let l4 = Label { id: 0 };
    let l0 = Label { id: 1 };
    let l3 = Label { id: 2 };
    let l28 = Label { id: 3 };
    assert_eq!(insns[0], Instruction::Goto(l4));
    assert_eq!(insns[1], Instruction::Nop);
    assert_eq!(insns[2], Instruction::TableSwitch { default: l0, low: 1, high: 2, table: vec![l3, l4] });
    assert_eq!(insns[3], Instruction::LookupSwitch { default: l3, pairs: vec![(5, l28)] });
}

#[test]
fn decoding_errors() {
    // an unknown opcode
    assert_eq!(decode(vec![0xca]).unwrap_err(), Error::UnknownOpcode);
    // an ldc of a Utf8 entry
    assert_eq!(decode(vec![0x12, 1]).unwrap_err(), Error::WrongPoolEntry);
    // an unknown array type
    assert_eq!(decode(vec![0xbc, 3]).unwrap_err(), Error::UnknownTag);
    // a field instruction whose index is not a field
    assert_eq!(decode(vec![0xb4, 0, 12]).unwrap_err(), Error::WrongPoolEntry);
}

#[test]
fn read_instruction_needs_labels() {
    let pool = pool();
    let code = vec![0xa7, 0x00, 0x03, 0x00];
    // labels made for other code: the target has none
    let labels = create_branch_labels(&vec![0x00, 0x00, 0x00, 0x00]).unwrap();
    let mut reader = ClassReader::new(code);
    assert_eq!(read_instruction(&mut reader, &pool, &labels, &None).unwrap_err(), Error::MissingLabel);
}

/// A `Code` attribute for `iload_1; ifeq +5; iconst_0; ireturn; iconst_1; ireturn`,
/// with a line number table.
fn code_attribute() -> Vec<u8> {
    let mut b = vec![0, 2, 0, 3, 0, 0, 0, 8];
    b.extend_from_slice(&[0x1b, 0x99, 0x00, 0x05, 0x03, 0xac, 0x04, 0xac]);
    b.extend_from_slice(&[0, 0]); // no exceptions
    b.extend_from_slice(&[0, 1, 0, 16, 0, 0, 0, 6, 0, 1, 0, 0, 0, 42]);
    b
}

#[test]
fn reads_a_code_attribute() {
    let pool = pool();
    let bytes = code_attribute();
    let length = bytes.len();
    let mut reader = ClassReader::new(bytes);
    let code = read_code(&mut reader, &pool, &None, &CodeInterests::all()).unwrap();
    assert_eq!(reader.marker(), length);
    assert_eq!(code.max_stack, Some(2));
    assert_eq!(code.max_locals, Some(3));
    let target = Label { id: 0 };
    let start = Label { id: 1 };
    let insns: Vec<(Option<Label>, &Instruction)> = code.instructions.iter().map(|e| (e.label, &e.instruction)).collect();
    assert_eq!(
        insns,
        vec![
            (Some(start), &Instruction::ILoad(LvIndex { index: 1 })),
            (None, &Instruction::IfEq(target)),
            (None, &Instruction::IConst0),
            (None, &Instruction::IReturn),
            (Some(target), &Instruction::IConst1),
            (None, &Instruction::IReturn),
        ]
    );
    assert_eq!(code.line_numbers, Some(vec![(start, 42)]));
    assert_eq!(code.last_label, None);
    assert!(code.exception_table.is_empty());
    assert!(code.attributes.is_empty());
}

#[test]
fn code_attribute_interests() {
    let pool = pool();
    let mut reader = ClassReader::new(code_attribute());
    let code = read_code(&mut reader, &pool, &None, &CodeInterests::none()).unwrap();
    // without interest the line number table is skipped, and its offset gets no label
    assert_eq!(code.line_numbers, None);
    assert_eq!(code.instructions[0].label, None);
}

#[test]
fn code_attribute_errors() {
    let pool = pool();
    let mut bytes = code_attribute();
    bytes[7] = 0;
    assert_eq!(read_code(&mut ClassReader::new(bytes), &pool, &None, &CodeInterests::all()).unwrap_err(), Error::InvalidCodeLength);
    let mut bytes = code_attribute();
    bytes.truncate(12);
    assert_eq!(read_code(&mut ClassReader::new(bytes), &pool, &None, &CodeInterests::all()).unwrap_err(), Error::UnexpectedEnd);
    // the branch leaves the code
    let mut bytes = code_attribute();
    bytes[11] = 0x20;
    assert_eq!(read_code(&mut ClassReader::new(bytes), &pool, &None, &CodeInterests::all()).unwrap_err(), Error::LabelOutOfBounds);
}
