//! Instructions of the Java virtual machine, and the constants they load.
use vstd::prelude::*;
use crate::jstring::JavaString;
use crate::tree::class::ClassName;
use crate::tree::code::{ArrayType, Exception, ExceptionModel, Handle, HandleModel, Label, Lv, LvIndex, LvModel};
use crate::tree::attribute::{Attribute, AttributeModel};
use crate::tree::field::{FieldDescriptor, FieldName, FieldRef, RefModel};
use crate::tree::method::{MethodDescriptor, MethodName, MethodRef};
use crate::class_reader::frames::{FrameModel, StackMapData};

verus! {

/// A constant that `ldc` loads, or an argument of a bootstrap method.
///
/// A `float` or a `double` is held by its IEEE 754 bits.
#[derive(Debug, PartialEq, Eq)]
pub enum Loadable {
    Integer(i32),
    Float(u32),
    Long(i64),
    Double(u64),
    Class(ClassName),
    String(JavaString),
    MethodHandle(Handle),
    MethodType(MethodDescriptor),
    Dynamic(ConstantDynamic),
}

/// A dynamically computed constant: its name and descriptor, and the bootstrap
/// method with its arguments.
#[derive(Debug, PartialEq, Eq)]
pub struct ConstantDynamic {
    pub name: FieldName,
    pub descriptor: FieldDescriptor,
    pub handle: Handle,
    pub arguments: Vec<Loadable>,
}

/// The call site of an `invokedynamic` instruction: its name and descriptor,
/// and the bootstrap method with its arguments.
#[derive(Debug, PartialEq, Eq)]
pub struct InvokeDynamic {
    pub name: MethodName,
    pub descriptor: MethodDescriptor,
    pub handle: Handle,
    pub arguments: Vec<Loadable>,
}

/// The model of a [`Loadable`].
pub ghost enum LoadableModel {
    Integer(i32),
    Float(u32),
    Long(i64),
    Double(u64),
    Class(Seq<u32>),
    String(Seq<u32>),
    MethodHandle(HandleModel),
    MethodType(Seq<u32>),
    Dynamic(DynamicModel),
}

/// The model of a [`ConstantDynamic`] or an [`InvokeDynamic`].
pub ghost struct DynamicModel {
    pub name: Seq<u32>,
    pub descriptor: Seq<u32>,
    pub handle: HandleModel,
    pub arguments: Seq<LoadableModel>,
}

/// The model of a loadable constant.
pub open spec fn loadable_view(l: Loadable) -> LoadableModel
    decreases l,
{
    match l {
        Loadable::Integer(v) => LoadableModel::Integer(v),
        Loadable::Float(v) => LoadableModel::Float(v),
        Loadable::Long(v) => LoadableModel::Long(v),
        Loadable::Double(v) => LoadableModel::Double(v),
        Loadable::Class(c) => LoadableModel::Class(c@),
        Loadable::String(s) => LoadableModel::String(s@),
        Loadable::MethodHandle(h) => LoadableModel::MethodHandle(h@),
        Loadable::MethodType(d) => LoadableModel::MethodType(d@),
        Loadable::Dynamic(c) => LoadableModel::Dynamic(DynamicModel {
            name: c.name@,
            descriptor: c.descriptor@,
            handle: c.handle@,
            arguments: loadables_view(c.arguments@),
        }),
    }
}

/// The models of a sequence of loadable constants.
pub open spec fn loadables_view(s: Seq<Loadable>) -> Seq<LoadableModel>
    decreases s,
{
    if s.len() == 0 {
        Seq::empty()
    } else {
        seq![loadable_view(s[0])] + loadables_view(s.drop_first())
    }
}

impl View for Loadable {
    type V = LoadableModel;

    open spec fn view(&self) -> LoadableModel {
        loadable_view(*self)
    }
}

/// The model of an `invokedynamic` call site.
pub open spec fn invoke_dynamic_view(d: InvokeDynamic) -> DynamicModel {
    DynamicModel {
        name: d.name@,
        descriptor: d.descriptor@,
        handle: d.handle@,
        arguments: loadables_view(d.arguments@),
    }
}

impl View for InvokeDynamic {
    type V = DynamicModel;

    open spec fn view(&self) -> DynamicModel {
        invoke_dynamic_view(*self)
    }
}

/// Represents an instruction of the JVM.
///
/// Each instruction either holds no data, like [`Instruction::Nop`], or an
/// immediate value, like [`Instruction::BiPush`], or a local variable index,
/// like [`Instruction::ILoad`] (which also stands for `iload_0` and `wide
/// iload`), or a [`Label`] for jumps, like [`Instruction::IfEq`] (where
/// [`Instruction::Goto`] also stands for `goto_w`), or other data.
#[derive(Debug, PartialEq, Eq)]
pub enum Instruction {
    Nop,
    AConstNull,
    IConstM1, IConst0, IConst1, IConst2, IConst3, IConst4, IConst5,
    LConst0, LConst1,
    FConst0, FConst1, FConst2,
    DConst0, DConst1,
    BiPush(i8),
    SiPush(i16),
    Ldc(Loadable),
    ILoad(LvIndex), LLoad(LvIndex), FLoad(LvIndex), DLoad(LvIndex), ALoad(LvIndex),
    IALoad, LALoad, FALoad, DALoad, AALoad, BALoad, CALoad, SALoad,
    IStore(LvIndex), LStore(LvIndex), FStore(LvIndex), DStore(LvIndex), AStore(LvIndex),
    IAStore, LAStore, FAStore, DAStore, AAStore, BAStore, CAStore, SAStore,
    Pop, Pop2,
    Dup, DupX1, DupX2,
    Dup2, Dup2X1, Dup2X2,
    Swap,
    IAdd, LAdd, FAdd, DAdd,
    ISub, LSub, FSub, DSub,
    IMul, LMul, FMul, DMul,
    IDiv, LDiv, FDiv, DDiv,
    IRem, LRem, FRem, DRem,
    INeg, LNeg, FNeg, DNeg,
    IShl, LShl,
    IShr, LShr,
    IUShr, LUShr,
    IAnd, LAnd,
    IOr, LOr,
    IXor, LXor,
    IInc(LvIndex, i16),
    I2L, I2F, I2D,
    L2I, L2F, L2D,
    F2I, F2L, F2D,
    D2I, D2L, D2F,
    I2B, I2C, I2S,
    LCmp,
    FCmpL, FCmpG,
    DCmpL, DCmpG,
    IfEq(Label), IfNe(Label), IfLt(Label), IfGe(Label), IfGt(Label), IfLe(Label),
    IfICmpEq(Label), IfICmpNe(Label), IfICmpLt(Label), IfICmpGe(Label), IfICmpGt(Label), IfICmpLe(Label),
    IfACmpEq(Label), IfACmpNe(Label),
    Goto(Label),
    Jsr(Label),
    Ret(LvIndex),
    TableSwitch {
        default: Label,
        low: i32,
        high: i32,
        table: Vec<Label>,
    },
    LookupSwitch {
        default: Label,
        /// Note that these must be ordered.
        pairs: Vec<(i32, Label)>,
    },
    IReturn, LReturn, FReturn, DReturn, AReturn,
    Return,
    GetStatic(FieldRef),
    PutStatic(FieldRef),
    GetField(FieldRef),
    PutField(FieldRef),
    InvokeVirtual(MethodRef),
    /// The bool is `true` iff the method is on an interface.
    InvokeSpecial(MethodRef, bool),
    /// The bool is `true` iff the method is on an interface.
    InvokeStatic(MethodRef, bool),
    InvokeInterface(MethodRef),
    InvokeDynamic(InvokeDynamic),
    New(ClassName),
    NewArray(ArrayType),
    ANewArray(ClassName),
    ArrayLength,
    AThrow,
    CheckCast(ClassName),
    InstanceOf(ClassName),
    MonitorEnter, MonitorExit,
    MultiANewArray(ClassName, u8),
    IfNull(Label), IfNonNull(Label),
}

/// The model of an [`Instruction`], by the shape of its operands.
pub ghost enum InsnModel {
    /// An instruction without operands, by its opcode.
    Plain(u8),
    BiPush(i8),
    SiPush(i16),
    Ldc(LoadableModel),
    /// A load, a store or a `ret`, by the opcode of its form with an index
    /// operand, and the index.
    Local(u8, u16),
    IInc(u16, i16),
    /// A branch, by the opcode of its form with a 16-bit offset, and its target.
    Branch(u8, Label),
    TableSwitch(Label, i32, i32, Seq<Label>),
    LookupSwitch(Label, Seq<(i32, Label)>),
    /// A field access, by its opcode.
    Field(u8, RefModel),
    /// A method invocation, by its opcode, and whether the method is on an interface.
    Invoke(u8, RefModel, bool),
    InvokeDynamic(DynamicModel),
    /// `new`, `anewarray`, `checkcast` or `instanceof`, by its opcode.
    Class(u8, Seq<u32>),
    NewArray(ArrayType),
    MultiANewArray(Seq<u32>, u8),
}

impl View for Instruction {
    type V = InsnModel;

    open spec fn view(&self) -> InsnModel {
        match self {
            Instruction::Nop => InsnModel::Plain(0x00),
            Instruction::AConstNull => InsnModel::Plain(0x01),
            Instruction::IConstM1 => InsnModel::Plain(0x02),
            Instruction::IConst0 => InsnModel::Plain(0x03),
            Instruction::IConst1 => InsnModel::Plain(0x04),
            Instruction::IConst2 => InsnModel::Plain(0x05),
            Instruction::IConst3 => InsnModel::Plain(0x06),
            Instruction::IConst4 => InsnModel::Plain(0x07),
            Instruction::IConst5 => InsnModel::Plain(0x08),
            Instruction::LConst0 => InsnModel::Plain(0x09),
            Instruction::LConst1 => InsnModel::Plain(0x0a),
            Instruction::FConst0 => InsnModel::Plain(0x0b),
            Instruction::FConst1 => InsnModel::Plain(0x0c),
            Instruction::FConst2 => InsnModel::Plain(0x0d),
            Instruction::DConst0 => InsnModel::Plain(0x0e),
            Instruction::DConst1 => InsnModel::Plain(0x0f),
            Instruction::IALoad => InsnModel::Plain(0x2e),
            Instruction::LALoad => InsnModel::Plain(0x2f),
            Instruction::FALoad => InsnModel::Plain(0x30),
            Instruction::DALoad => InsnModel::Plain(0x31),
            Instruction::AALoad => InsnModel::Plain(0x32),
            Instruction::BALoad => InsnModel::Plain(0x33),
            Instruction::CALoad => InsnModel::Plain(0x34),
            Instruction::SALoad => InsnModel::Plain(0x35),
            Instruction::IAStore => InsnModel::Plain(0x4f),
            Instruction::LAStore => InsnModel::Plain(0x50),
            Instruction::FAStore => InsnModel::Plain(0x51),
            Instruction::DAStore => InsnModel::Plain(0x52),
            Instruction::AAStore => InsnModel::Plain(0x53),
            Instruction::BAStore => InsnModel::Plain(0x54),
            Instruction::CAStore => InsnModel::Plain(0x55),
            Instruction::SAStore => InsnModel::Plain(0x56),
            Instruction::Pop => InsnModel::Plain(0x57),
            Instruction::Pop2 => InsnModel::Plain(0x58),
            Instruction::Dup => InsnModel::Plain(0x59),
            Instruction::DupX1 => InsnModel::Plain(0x5a),
            Instruction::DupX2 => InsnModel::Plain(0x5b),
            Instruction::Dup2 => InsnModel::Plain(0x5c),
            Instruction::Dup2X1 => InsnModel::Plain(0x5d),
            Instruction::Dup2X2 => InsnModel::Plain(0x5e),
            Instruction::Swap => InsnModel::Plain(0x5f),
            Instruction::IAdd => InsnModel::Plain(0x60),
            Instruction::LAdd => InsnModel::Plain(0x61),
            Instruction::FAdd => InsnModel::Plain(0x62),
            Instruction::DAdd => InsnModel::Plain(0x63),
            Instruction::ISub => InsnModel::Plain(0x64),
            Instruction::LSub => InsnModel::Plain(0x65),
            Instruction::FSub => InsnModel::Plain(0x66),
            Instruction::DSub => InsnModel::Plain(0x67),
            Instruction::IMul => InsnModel::Plain(0x68),
            Instruction::LMul => InsnModel::Plain(0x69),
            Instruction::FMul => InsnModel::Plain(0x6a),
            Instruction::DMul => InsnModel::Plain(0x6b),
            Instruction::IDiv => InsnModel::Plain(0x6c),
            Instruction::LDiv => InsnModel::Plain(0x6d),
            Instruction::FDiv => InsnModel::Plain(0x6e),
            Instruction::DDiv => InsnModel::Plain(0x6f),
            Instruction::IRem => InsnModel::Plain(0x70),
            Instruction::LRem => InsnModel::Plain(0x71),
            Instruction::FRem => InsnModel::Plain(0x72),
            Instruction::DRem => InsnModel::Plain(0x73),
            Instruction::INeg => InsnModel::Plain(0x74),
            Instruction::LNeg => InsnModel::Plain(0x75),
            Instruction::FNeg => InsnModel::Plain(0x76),
            Instruction::DNeg => InsnModel::Plain(0x77),
            Instruction::IShl => InsnModel::Plain(0x78),
            Instruction::LShl => InsnModel::Plain(0x79),
            Instruction::IShr => InsnModel::Plain(0x7a),
            Instruction::LShr => InsnModel::Plain(0x7b),
            Instruction::IUShr => InsnModel::Plain(0x7c),
            Instruction::LUShr => InsnModel::Plain(0x7d),
            Instruction::IAnd => InsnModel::Plain(0x7e),
            Instruction::LAnd => InsnModel::Plain(0x7f),
            Instruction::IOr => InsnModel::Plain(0x80),
            Instruction::LOr => InsnModel::Plain(0x81),
            Instruction::IXor => InsnModel::Plain(0x82),
            Instruction::LXor => InsnModel::Plain(0x83),
            Instruction::I2L => InsnModel::Plain(0x85),
            Instruction::I2F => InsnModel::Plain(0x86),
            Instruction::I2D => InsnModel::Plain(0x87),
            Instruction::L2I => InsnModel::Plain(0x88),
            Instruction::L2F => InsnModel::Plain(0x89),
            Instruction::L2D => InsnModel::Plain(0x8a),
            Instruction::F2I => InsnModel::Plain(0x8b),
            Instruction::F2L => InsnModel::Plain(0x8c),
            Instruction::F2D => InsnModel::Plain(0x8d),
            Instruction::D2I => InsnModel::Plain(0x8e),
            Instruction::D2L => InsnModel::Plain(0x8f),
            Instruction::D2F => InsnModel::Plain(0x90),
            Instruction::I2B => InsnModel::Plain(0x91),
            Instruction::I2C => InsnModel::Plain(0x92),
            Instruction::I2S => InsnModel::Plain(0x93),
            Instruction::LCmp => InsnModel::Plain(0x94),
            Instruction::FCmpL => InsnModel::Plain(0x95),
            Instruction::FCmpG => InsnModel::Plain(0x96),
            Instruction::DCmpL => InsnModel::Plain(0x97),
            Instruction::DCmpG => InsnModel::Plain(0x98),
            Instruction::IReturn => InsnModel::Plain(0xac),
            Instruction::LReturn => InsnModel::Plain(0xad),
            Instruction::FReturn => InsnModel::Plain(0xae),
            Instruction::DReturn => InsnModel::Plain(0xaf),
            Instruction::AReturn => InsnModel::Plain(0xb0),
            Instruction::Return => InsnModel::Plain(0xb1),
            Instruction::ArrayLength => InsnModel::Plain(0xbe),
            Instruction::AThrow => InsnModel::Plain(0xbf),
            Instruction::MonitorEnter => InsnModel::Plain(0xc2),
            Instruction::MonitorExit => InsnModel::Plain(0xc3),
            Instruction::BiPush(v) => InsnModel::BiPush(*v),
            Instruction::SiPush(v) => InsnModel::SiPush(*v),
            Instruction::Ldc(l) => InsnModel::Ldc(loadable_view(*l)),
            Instruction::ILoad(i) => InsnModel::Local(0x15, i.index),
            Instruction::LLoad(i) => InsnModel::Local(0x16, i.index),
            Instruction::FLoad(i) => InsnModel::Local(0x17, i.index),
            Instruction::DLoad(i) => InsnModel::Local(0x18, i.index),
            Instruction::ALoad(i) => InsnModel::Local(0x19, i.index),
            Instruction::IStore(i) => InsnModel::Local(0x36, i.index),
            Instruction::LStore(i) => InsnModel::Local(0x37, i.index),
            Instruction::FStore(i) => InsnModel::Local(0x38, i.index),
            Instruction::DStore(i) => InsnModel::Local(0x39, i.index),
            Instruction::AStore(i) => InsnModel::Local(0x3a, i.index),
            Instruction::Ret(i) => InsnModel::Local(0xa9, i.index),
            Instruction::IInc(i, v) => InsnModel::IInc(i.index, *v),
            Instruction::IfEq(l) => InsnModel::Branch(0x99, *l),
            Instruction::IfNe(l) => InsnModel::Branch(0x9a, *l),
            Instruction::IfLt(l) => InsnModel::Branch(0x9b, *l),
            Instruction::IfGe(l) => InsnModel::Branch(0x9c, *l),
            Instruction::IfGt(l) => InsnModel::Branch(0x9d, *l),
            Instruction::IfLe(l) => InsnModel::Branch(0x9e, *l),
            Instruction::IfICmpEq(l) => InsnModel::Branch(0x9f, *l),
            Instruction::IfICmpNe(l) => InsnModel::Branch(0xa0, *l),
            Instruction::IfICmpLt(l) => InsnModel::Branch(0xa1, *l),
            Instruction::IfICmpGe(l) => InsnModel::Branch(0xa2, *l),
            Instruction::IfICmpGt(l) => InsnModel::Branch(0xa3, *l),
            Instruction::IfICmpLe(l) => InsnModel::Branch(0xa4, *l),
            Instruction::IfACmpEq(l) => InsnModel::Branch(0xa5, *l),
            Instruction::IfACmpNe(l) => InsnModel::Branch(0xa6, *l),
            Instruction::Goto(l) => InsnModel::Branch(0xa7, *l),
            Instruction::Jsr(l) => InsnModel::Branch(0xa8, *l),
            Instruction::IfNull(l) => InsnModel::Branch(0xc6, *l),
            Instruction::IfNonNull(l) => InsnModel::Branch(0xc7, *l),
            Instruction::TableSwitch { default, low, high, table } => InsnModel::TableSwitch(*default, *low, *high, table@),
            Instruction::LookupSwitch { default, pairs } => InsnModel::LookupSwitch(*default, pairs@),
            Instruction::GetStatic(f) => InsnModel::Field(0xb2, f@),
            Instruction::PutStatic(f) => InsnModel::Field(0xb3, f@),
            Instruction::GetField(f) => InsnModel::Field(0xb4, f@),
            Instruction::PutField(f) => InsnModel::Field(0xb5, f@),
            Instruction::InvokeVirtual(m) => InsnModel::Invoke(0xb6, m@, false),
            Instruction::InvokeSpecial(m, i) => InsnModel::Invoke(0xb7, m@, *i),
            Instruction::InvokeStatic(m, i) => InsnModel::Invoke(0xb8, m@, *i),
            Instruction::InvokeInterface(m) => InsnModel::Invoke(0xb9, m@, true),
            Instruction::InvokeDynamic(d) => InsnModel::InvokeDynamic(invoke_dynamic_view(*d)),
            Instruction::New(c) => InsnModel::Class(0xbb, c@),
            Instruction::ANewArray(c) => InsnModel::Class(0xbd, c@),
            Instruction::CheckCast(c) => InsnModel::Class(0xc0, c@),
            Instruction::InstanceOf(c) => InsnModel::Class(0xc1, c@),
            Instruction::NewArray(t) => InsnModel::NewArray(*t),
            Instruction::MultiANewArray(c, d) => InsnModel::MultiANewArray(c@, *d),
        }
    }
}

/// An instruction of a method's code, with the label of its offset (where
/// anything refers to it) and the stack map frame at it (where there is one).
#[derive(Debug)]
pub struct InstructionListEntry {
    pub label: Option<Label>,
    pub frame: Option<StackMapData>,
    pub instruction: Instruction,
}

/// The model of an [`InstructionListEntry`].
pub ghost struct ListEntryModel {
    pub label: Option<Label>,
    pub frame: Option<FrameModel>,
    pub insn: InsnModel,
}

impl View for InstructionListEntry {
    type V = ListEntryModel;

    open spec fn view(&self) -> ListEntryModel {
        ListEntryModel {
            label: self.label,
            frame: match &self.frame {
                Some(f) => Some(f@),
                None => None,
            },
            insn: self.instruction@,
        }
    }
}

/// Represents the code of a method.
#[derive(Debug)]
pub struct Code {
    pub max_stack: Option<u16>,
    pub max_locals: Option<u16>,

    pub instructions: Vec<InstructionListEntry>,
    pub exception_table: Vec<Exception>,
    pub last_label: Option<Label>,

    pub line_numbers: Option<Vec<(Label, u16)>>,
    pub local_variables: Option<Vec<Lv>>,

    pub attributes: Vec<Attribute>,
}

/// The model of a [`Code`].
pub ghost struct CodeModel {
    pub max_stack: Option<u16>,
    pub max_locals: Option<u16>,
    pub instructions: Seq<ListEntryModel>,
    pub exception_table: Seq<ExceptionModel>,
    pub last_label: Option<Label>,
    pub line_numbers: Option<Seq<(Label, u16)>>,
    pub local_variables: Option<Seq<LvModel>>,
    pub attributes: Seq<AttributeModel>,
}

impl View for Code {
    type V = CodeModel;

    open spec fn view(&self) -> CodeModel {
        CodeModel {
            max_stack: self.max_stack,
            max_locals: self.max_locals,
            instructions: self.instructions@.map_values(|e: InstructionListEntry| e@),
            exception_table: self.exception_table@.map_values(|e: Exception| e@),
            last_label: self.last_label,
            line_numbers: match &self.line_numbers {
                Some(v) => Some(v@),
                None => None,
            },
            local_variables: match &self.local_variables {
                Some(v) => Some(v@.map_values(|l: Lv| l@)),
                None => None,
            },
            attributes: self.attributes@.map_values(|a: Attribute| a@),
        }
    }
}

/// The instructions without operands stand for their JVMS opcodes (from `nop` on).
pub proof fn lemma_plain_opcodes_constants_to_arithmetic()
    ensures
        Instruction::Nop@ == InsnModel::Plain(0x00),
        Instruction::AConstNull@ == InsnModel::Plain(0x01),
        Instruction::IConstM1@ == InsnModel::Plain(0x02),
        Instruction::IConst0@ == InsnModel::Plain(0x03),
        Instruction::IConst1@ == InsnModel::Plain(0x04),
        Instruction::IConst2@ == InsnModel::Plain(0x05),
        Instruction::IConst3@ == InsnModel::Plain(0x06),
        Instruction::IConst4@ == InsnModel::Plain(0x07),
        Instruction::IConst5@ == InsnModel::Plain(0x08),
        Instruction::LConst0@ == InsnModel::Plain(0x09),
        Instruction::LConst1@ == InsnModel::Plain(0x0a),
        Instruction::FConst0@ == InsnModel::Plain(0x0b),
        Instruction::FConst1@ == InsnModel::Plain(0x0c),
        Instruction::FConst2@ == InsnModel::Plain(0x0d),
        Instruction::DConst0@ == InsnModel::Plain(0x0e),
        Instruction::DConst1@ == InsnModel::Plain(0x0f),
        Instruction::IALoad@ == InsnModel::Plain(0x2e),
        Instruction::LALoad@ == InsnModel::Plain(0x2f),
        Instruction::FALoad@ == InsnModel::Plain(0x30),
        Instruction::DALoad@ == InsnModel::Plain(0x31),
        Instruction::AALoad@ == InsnModel::Plain(0x32),
        Instruction::BALoad@ == InsnModel::Plain(0x33),
        Instruction::CALoad@ == InsnModel::Plain(0x34),
        Instruction::SALoad@ == InsnModel::Plain(0x35),
        Instruction::IAStore@ == InsnModel::Plain(0x4f),
        Instruction::LAStore@ == InsnModel::Plain(0x50),
        Instruction::FAStore@ == InsnModel::Plain(0x51),
        Instruction::DAStore@ == InsnModel::Plain(0x52),
        Instruction::AAStore@ == InsnModel::Plain(0x53),
        Instruction::BAStore@ == InsnModel::Plain(0x54),
        Instruction::CAStore@ == InsnModel::Plain(0x55),
        Instruction::SAStore@ == InsnModel::Plain(0x56),
        Instruction::Pop@ == InsnModel::Plain(0x57),
        Instruction::Pop2@ == InsnModel::Plain(0x58),
        Instruction::Dup@ == InsnModel::Plain(0x59),
        Instruction::DupX1@ == InsnModel::Plain(0x5a),
        Instruction::DupX2@ == InsnModel::Plain(0x5b),
        Instruction::Dup2@ == InsnModel::Plain(0x5c),
{
}

/// The instructions without operands stand for their JVMS opcodes (continued).
pub proof fn lemma_plain_opcodes_arithmetic_to_conversions()
    ensures
        Instruction::Dup2X1@ == InsnModel::Plain(0x5d),
        Instruction::Dup2X2@ == InsnModel::Plain(0x5e),
        Instruction::Swap@ == InsnModel::Plain(0x5f),
        Instruction::IAdd@ == InsnModel::Plain(0x60),
        Instruction::LAdd@ == InsnModel::Plain(0x61),
        Instruction::FAdd@ == InsnModel::Plain(0x62),
        Instruction::DAdd@ == InsnModel::Plain(0x63),
        Instruction::ISub@ == InsnModel::Plain(0x64),
        Instruction::LSub@ == InsnModel::Plain(0x65),
        Instruction::FSub@ == InsnModel::Plain(0x66),
        Instruction::DSub@ == InsnModel::Plain(0x67),
        Instruction::IMul@ == InsnModel::Plain(0x68),
        Instruction::LMul@ == InsnModel::Plain(0x69),
        Instruction::FMul@ == InsnModel::Plain(0x6a),
        Instruction::DMul@ == InsnModel::Plain(0x6b),
        Instruction::IDiv@ == InsnModel::Plain(0x6c),
        Instruction::LDiv@ == InsnModel::Plain(0x6d),
        Instruction::FDiv@ == InsnModel::Plain(0x6e),
        Instruction::DDiv@ == InsnModel::Plain(0x6f),
        Instruction::IRem@ == InsnModel::Plain(0x70),
        Instruction::LRem@ == InsnModel::Plain(0x71),
        Instruction::FRem@ == InsnModel::Plain(0x72),
        Instruction::DRem@ == InsnModel::Plain(0x73),
        Instruction::INeg@ == InsnModel::Plain(0x74),
        Instruction::LNeg@ == InsnModel::Plain(0x75),
        Instruction::FNeg@ == InsnModel::Plain(0x76),
        Instruction::DNeg@ == InsnModel::Plain(0x77),
        Instruction::IShl@ == InsnModel::Plain(0x78),
        Instruction::LShl@ == InsnModel::Plain(0x79),
        Instruction::IShr@ == InsnModel::Plain(0x7a),
        Instruction::LShr@ == InsnModel::Plain(0x7b),
        Instruction::IUShr@ == InsnModel::Plain(0x7c),
        Instruction::LUShr@ == InsnModel::Plain(0x7d),
        Instruction::IAnd@ == InsnModel::Plain(0x7e),
        Instruction::LAnd@ == InsnModel::Plain(0x7f),
        Instruction::IOr@ == InsnModel::Plain(0x80),
        Instruction::LOr@ == InsnModel::Plain(0x81),
        Instruction::IXor@ == InsnModel::Plain(0x82),
{
}

/// The instructions without operands stand for their JVMS opcodes (the rest).
pub proof fn lemma_plain_opcodes_rest()
    ensures
        Instruction::LXor@ == InsnModel::Plain(0x83),
        Instruction::I2L@ == InsnModel::Plain(0x85),
        Instruction::I2F@ == InsnModel::Plain(0x86),
        Instruction::I2D@ == InsnModel::Plain(0x87),
        Instruction::L2I@ == InsnModel::Plain(0x88),
        Instruction::L2F@ == InsnModel::Plain(0x89),
        Instruction::L2D@ == InsnModel::Plain(0x8a),
        Instruction::F2I@ == InsnModel::Plain(0x8b),
        Instruction::F2L@ == InsnModel::Plain(0x8c),
        Instruction::F2D@ == InsnModel::Plain(0x8d),
        Instruction::D2I@ == InsnModel::Plain(0x8e),
        Instruction::D2L@ == InsnModel::Plain(0x8f),
        Instruction::D2F@ == InsnModel::Plain(0x90),
        Instruction::I2B@ == InsnModel::Plain(0x91),
        Instruction::I2C@ == InsnModel::Plain(0x92),
        Instruction::I2S@ == InsnModel::Plain(0x93),
        Instruction::LCmp@ == InsnModel::Plain(0x94),
        Instruction::FCmpL@ == InsnModel::Plain(0x95),
        Instruction::FCmpG@ == InsnModel::Plain(0x96),
        Instruction::DCmpL@ == InsnModel::Plain(0x97),
        Instruction::DCmpG@ == InsnModel::Plain(0x98),
        Instruction::IReturn@ == InsnModel::Plain(0xac),
        Instruction::LReturn@ == InsnModel::Plain(0xad),
        Instruction::FReturn@ == InsnModel::Plain(0xae),
        Instruction::DReturn@ == InsnModel::Plain(0xaf),
        Instruction::AReturn@ == InsnModel::Plain(0xb0),
        Instruction::Return@ == InsnModel::Plain(0xb1),
        Instruction::ArrayLength@ == InsnModel::Plain(0xbe),
        Instruction::AThrow@ == InsnModel::Plain(0xbf),
        Instruction::MonitorEnter@ == InsnModel::Plain(0xc2),
        Instruction::MonitorExit@ == InsnModel::Plain(0xc3),
{
}

/// The instructions with operands stand for their JVMS opcodes: loads, stores and `ret` by the form with an index operand, branches by the form with a two-byte offset, field accesses, method invocations and the instructions on a class.
pub proof fn lemma_operand_opcodes(i: LvIndex, l: Label, f: FieldRef, m: MethodRef, c: ClassName, b: bool)
    ensures
        Instruction::ILoad(i)@ == InsnModel::Local(0x15, i.index),
        Instruction::LLoad(i)@ == InsnModel::Local(0x16, i.index),
        Instruction::FLoad(i)@ == InsnModel::Local(0x17, i.index),
        Instruction::DLoad(i)@ == InsnModel::Local(0x18, i.index),
        Instruction::ALoad(i)@ == InsnModel::Local(0x19, i.index),
        Instruction::IStore(i)@ == InsnModel::Local(0x36, i.index),
        Instruction::LStore(i)@ == InsnModel::Local(0x37, i.index),
        Instruction::FStore(i)@ == InsnModel::Local(0x38, i.index),
        Instruction::DStore(i)@ == InsnModel::Local(0x39, i.index),
        Instruction::AStore(i)@ == InsnModel::Local(0x3a, i.index),
        Instruction::Ret(i)@ == InsnModel::Local(0xa9, i.index),
        Instruction::IfEq(l)@ == InsnModel::Branch(0x99, l),
        Instruction::IfNe(l)@ == InsnModel::Branch(0x9a, l),
        Instruction::IfLt(l)@ == InsnModel::Branch(0x9b, l),
        Instruction::IfGe(l)@ == InsnModel::Branch(0x9c, l),
        Instruction::IfGt(l)@ == InsnModel::Branch(0x9d, l),
        Instruction::IfLe(l)@ == InsnModel::Branch(0x9e, l),
        Instruction::IfICmpEq(l)@ == InsnModel::Branch(0x9f, l),
        Instruction::IfICmpNe(l)@ == InsnModel::Branch(0xa0, l),
        Instruction::IfICmpLt(l)@ == InsnModel::Branch(0xa1, l),
        Instruction::IfICmpGe(l)@ == InsnModel::Branch(0xa2, l),
        Instruction::IfICmpGt(l)@ == InsnModel::Branch(0xa3, l),
        Instruction::IfICmpLe(l)@ == InsnModel::Branch(0xa4, l),
        Instruction::IfACmpEq(l)@ == InsnModel::Branch(0xa5, l),
        Instruction::IfACmpNe(l)@ == InsnModel::Branch(0xa6, l),
        Instruction::Goto(l)@ == InsnModel::Branch(0xa7, l),
        Instruction::Jsr(l)@ == InsnModel::Branch(0xa8, l),
        Instruction::IfNull(l)@ == InsnModel::Branch(0xc6, l),
        Instruction::IfNonNull(l)@ == InsnModel::Branch(0xc7, l),
        Instruction::GetStatic(f)@ == InsnModel::Field(0xb2, f@),
        Instruction::PutStatic(f)@ == InsnModel::Field(0xb3, f@),
        Instruction::GetField(f)@ == InsnModel::Field(0xb4, f@),
        Instruction::PutField(f)@ == InsnModel::Field(0xb5, f@),
        Instruction::InvokeVirtual(m)@ matches InsnModel::Invoke(op, _, _) && op == 0xb6,
        Instruction::InvokeSpecial(m, b)@ == InsnModel::Invoke(0xb7, m@, b),
        Instruction::InvokeStatic(m, b)@ == InsnModel::Invoke(0xb8, m@, b),
        Instruction::InvokeInterface(m)@ matches InsnModel::Invoke(op, _, _) && op == 0xb9,
        Instruction::New(c)@ == InsnModel::Class(0xbb, c@),
        Instruction::ANewArray(c)@ == InsnModel::Class(0xbd, c@),
        Instruction::CheckCast(c)@ == InsnModel::Class(0xc0, c@),
        Instruction::InstanceOf(c)@ == InsnModel::Class(0xc1, c@),
{
}

} // verus!

