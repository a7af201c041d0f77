//! Where a type annotation sits: the target of the annotation, and the path
//! into the annotated type. Each comes with its reading and writing.
use vstd::prelude::*;
use crate::bytes::{ClassReader, be_u16, u16_bytes, write_u8, write_u16, write_usize_as_u8, write_usize_as_u16,
    lemma_u16_round_trip};
use crate::class_reader::labels::{Labels, CodeRead, add_label};
use crate::error::Error;
use crate::simple_class_writer::labels::Labels as WriteLabels;
use crate::tree::code::{Label, LabelRange, LvIndex};

verus! {

pub const CLASS_TYPE_PARAMETER: u8 = 0x00;
pub const METHOD_TYPE_PARAMETER: u8 = 0x01;
pub const CLASS_EXTENDS: u8 = 0x10;
pub const CLASS_TYPE_PARAMETER_BOUND: u8 = 0x11;
pub const METHOD_TYPE_PARAMETER_BOUND: u8 = 0x12;
pub const FIELD: u8 = 0x13;
pub const METHOD_RETURN: u8 = 0x14;
pub const METHOD_RECEIVER: u8 = 0x15;
pub const METHOD_FORMAL_PARAMETER: u8 = 0x16;
pub const THROWS: u8 = 0x17;
pub const LOCAL_VARIABLE: u8 = 0x40;
pub const RESOURCE_VARIABLE: u8 = 0x41;
pub const EXCEPTION_PARAMETER: u8 = 0x42;
pub const INSTANCE_OF: u8 = 0x43;
pub const NEW: u8 = 0x44;
pub const CONSTRUCTOR_REFERENCE: u8 = 0x45;
pub const METHOD_REFERENCE: u8 = 0x46;
pub const CAST: u8 = 0x47;
pub const CONSTRUCTOR_INVOCATION_TYPE_ARGUMENT: u8 = 0x48;
pub const METHOD_INVOCATION_TYPE_ARGUMENT: u8 = 0x49;
pub const CONSTRUCTOR_REFERENCE_TYPE_ARGUMENT: u8 = 0x4a;
pub const METHOD_REFERENCE_TYPE_ARGUMENT: u8 = 0x4b;

/// States exactly on which type the annotation is, for the class file structure.
#[derive(Debug, Clone, Copy, PartialEq, Eq, Structural)]
pub enum TargetInfoClass {
    /// The annotation is on a type parameter of a generic class or generic interface.
    ClassTypeParameter {
        /// The index of the type parameter. `0` means the first type parameter.
        index: u8,
    },
    /// The annotation is on the superclass in an `extends` clause.
    Extends,
    /// The annotation is on a super interface.
    Implements {
        /// The index into the list of the class' interfaces. An index of `u16::MAX` is not legal.
        index: u16,
    },
    /// The annotation is on a bound of a type parameter of a generic class or generic interface.
    ClassTypeParameterBound {
        /// The index of the type parameter.
        type_parameter_index: u8,
        /// The index of the bound.
        bound_index: u8,
    },
}

/// States exactly on which type the annotation is, for the field info structure.
#[derive(Debug, Clone, Copy, PartialEq, Eq, Structural)]
pub enum TargetInfoField {
    /// The annotation is on the type of a field declaration or of a record component declaration.
    Field,
}

/// States exactly on which type the annotation is, for the method info structure.
#[derive(Debug, Clone, Copy, PartialEq, Eq, Structural)]
pub enum TargetInfoMethod {
    /// The annotation is on a type parameter of a generic method or generic constructor.
    MethodTypeParameter {
        /// The index of the type parameter.
        index: u8,
    },
    /// The annotation is on a bound of a type parameter of a generic method or generic constructor.
    MethodTypeParameterBound {
        /// The index of the type parameter.
        type_parameter_index: u8,
        /// The index of the bound.
        bound_index: u8,
    },
    /// The annotation is on the return type of a method or on the type of a newly constructed object.
    Return,
    /// The annotation is on the receiver type of a method or constructor.
    Receiver,
    /// The annotation is on a type of a formal parameter declaration.
    FormalParameter {
        /// The formal parameter index.
        index: u8,
    },
    /// The annotation is on the `throws` clause of a method or constructor.
    Throws {
        /// The index into the list of the method's exceptions.
        index: u16,
    },
}

/// One step of a type path.
#[derive(Debug, Clone, Copy, PartialEq, Eq, Structural)]
pub enum TypePathKind {
    ArrayDeeper,
    NestedDeeper,
    WildcardBound,
    TypeArgument {
        index: u8,
    },
}

/// Specifies exactly where in the type the annotation is.
#[derive(Debug)]
pub struct TypePath {
    pub path: Vec<TypePathKind>,
}

impl View for TypePath {
    type V = Seq<TypePathKind>;

    open spec fn view(&self) -> Seq<TypePathKind> {
        self.path@
    }
}

// ----- the bytes -----

/// The bytes of a class target.
pub open spec fn class_target_bytes(t: TargetInfoClass) -> Seq<u8> {
    match t {
        TargetInfoClass::ClassTypeParameter { index } => seq![CLASS_TYPE_PARAMETER, index],
        TargetInfoClass::Extends => seq![CLASS_EXTENDS] + u16_bytes(0xFFFF),
        TargetInfoClass::Implements { index } => seq![CLASS_EXTENDS] + u16_bytes(index),
        TargetInfoClass::ClassTypeParameterBound { type_parameter_index, bound_index } =>
            seq![CLASS_TYPE_PARAMETER_BOUND, type_parameter_index, bound_index],
    }
}

/// Reading a class target at `pos`: the target and the position after it.
pub open spec fn read_class_target(b: Seq<u8>, pos: int) -> Result<(TargetInfoClass, int), Error> {
    if pos + 1 > b.len() {
        Err(Error::UnexpectedEnd)
    } else {
        let tag = b[pos];
        let p = pos + 1;
        if tag == CLASS_TYPE_PARAMETER {
            if p + 1 > b.len() { Err(Error::UnexpectedEnd) } else { Ok((TargetInfoClass::ClassTypeParameter { index: b[p] }, p + 1)) }
        } else if tag == CLASS_EXTENDS {
            if p + 2 > b.len() {
                Err(Error::UnexpectedEnd)
            } else if be_u16(b, p) == 0xFFFF {
                Ok((TargetInfoClass::Extends, p + 2))
            } else {
                Ok((TargetInfoClass::Implements { index: be_u16(b, p) }, p + 2))
            }
        } else if tag == CLASS_TYPE_PARAMETER_BOUND {
            if p + 2 > b.len() {
                Err(Error::UnexpectedEnd)
            } else {
                Ok((TargetInfoClass::ClassTypeParameterBound { type_parameter_index: b[p], bound_index: b[p + 1] }, p + 2))
            }
        } else {
            Err(Error::UnknownTag)
        }
    }
}

/// The bytes of a field target.
pub open spec fn field_target_bytes(t: TargetInfoField) -> Seq<u8> {
    seq![FIELD]
}

/// Reading a field target at `pos`.
pub open spec fn read_field_target(b: Seq<u8>, pos: int) -> Result<(TargetInfoField, int), Error> {
    if pos + 1 > b.len() {
        Err(Error::UnexpectedEnd)
    } else if b[pos] == FIELD {
        Ok((TargetInfoField::Field, pos + 1))
    } else {
        Err(Error::UnknownTag)
    }
}

/// The bytes of a method target.
pub open spec fn method_target_bytes(t: TargetInfoMethod) -> Seq<u8> {
    match t {
        TargetInfoMethod::MethodTypeParameter { index } => seq![METHOD_TYPE_PARAMETER, index],
        TargetInfoMethod::MethodTypeParameterBound { type_parameter_index, bound_index } =>
            seq![METHOD_TYPE_PARAMETER_BOUND, type_parameter_index, bound_index],
        TargetInfoMethod::Return => seq![METHOD_RETURN],
        TargetInfoMethod::Receiver => seq![METHOD_RECEIVER],
        TargetInfoMethod::FormalParameter { index } => seq![METHOD_FORMAL_PARAMETER, index],
        TargetInfoMethod::Throws { index } => seq![THROWS] + u16_bytes(index),
    }
}

/// Reading a method target at `pos`.
pub open spec fn read_method_target(b: Seq<u8>, pos: int) -> Result<(TargetInfoMethod, int), Error> {
    if pos + 1 > b.len() {
        Err(Error::UnexpectedEnd)
    } else {
        let tag = b[pos];
        let p = pos + 1;
        if tag == METHOD_TYPE_PARAMETER || tag == METHOD_FORMAL_PARAMETER {
            if p + 1 > b.len() {
                Err(Error::UnexpectedEnd)
            } else if tag == METHOD_TYPE_PARAMETER {
                Ok((TargetInfoMethod::MethodTypeParameter { index: b[p] }, p + 1))
            } else {
                Ok((TargetInfoMethod::FormalParameter { index: b[p] }, p + 1))
            }
        } else if tag == METHOD_TYPE_PARAMETER_BOUND {
            if p + 2 > b.len() {
                Err(Error::UnexpectedEnd)
            } else {
                Ok((TargetInfoMethod::MethodTypeParameterBound { type_parameter_index: b[p], bound_index: b[p + 1] }, p + 2))
            }
        } else if tag == METHOD_RETURN {
            Ok((TargetInfoMethod::Return, p))
        } else if tag == METHOD_RECEIVER {
            Ok((TargetInfoMethod::Receiver, p))
        } else if tag == THROWS {
            if p + 2 > b.len() { Err(Error::UnexpectedEnd) } else { Ok((TargetInfoMethod::Throws { index: be_u16(b, p) }, p + 2)) }
        } else {
            Err(Error::UnknownTag)
        }
    }
}

/// The two bytes of a type path step.
pub open spec fn kind_bytes(k: TypePathKind) -> Seq<u8> {
    match k {
        TypePathKind::ArrayDeeper => seq![0u8, 0u8],
        TypePathKind::NestedDeeper => seq![1u8, 0u8],
        TypePathKind::WildcardBound => seq![2u8, 0u8],
        TypePathKind::TypeArgument { index } => seq![3u8, index],
    }
}

/// The bytes of the steps of a type path.
pub open spec fn kinds_bytes(p: Seq<TypePathKind>) -> Seq<u8>
    decreases p.len(),
{
    if p.len() == 0 {
        Seq::empty()
    } else {
        kind_bytes(p[0]) + kinds_bytes(p.skip(1))
    }
}

/// The bytes of a type path: the number of steps, then the steps.
pub open spec fn type_path_bytes(p: Seq<TypePathKind>) -> Seq<u8> {
    seq![p.len() as u8] + kinds_bytes(p)
}

/// The step a kind byte and a type argument index stand for.
pub open spec fn kind_of(kind: u8, index: u8) -> Result<TypePathKind, Error> {
    if kind == 3 {
        Ok(TypePathKind::TypeArgument { index })
    } else if kind > 3 || index != 0 {
        Err(Error::InvalidTypePath)
    } else if kind == 0 {
        Ok(TypePathKind::ArrayDeeper)
    } else if kind == 1 {
        Ok(TypePathKind::NestedDeeper)
    } else {
        Ok(TypePathKind::WildcardBound)
    }
}

/// Reading `n` type path steps at `pos`.
pub open spec fn read_kinds(b: Seq<u8>, pos: int, n: int) -> Result<(Seq<TypePathKind>, int), Error>
    decreases n,
{
    if n <= 0 {
        Ok((Seq::empty(), pos))
    } else if pos + 2 > b.len() {
        Err(Error::UnexpectedEnd)
    } else {
        match kind_of(b[pos], b[pos + 1]) {
            Ok(k) => match read_kinds(b, pos + 2, n - 1) {
                Ok((ks, end)) => Ok((seq![k] + ks, end)),
                Err(e) => Err(e),
            },
            Err(e) => Err(e),
        }
    }
}

/// Reading a type path at `pos`.
pub open spec fn read_type_path_at(b: Seq<u8>, pos: int) -> Result<(Seq<TypePathKind>, int), Error> {
    if pos + 1 > b.len() {
        Err(Error::UnexpectedEnd)
    } else {
        read_kinds(b, pos + 1, b[pos] as int)
    }
}

// ----- laws -----

/// A class target that is written is read back, except `Implements` with the
/// index `u16::MAX`, which is read back as `Extends`.
pub proof fn lemma_class_target_round_trip(t: TargetInfoClass, before: Seq<u8>, after: Seq<u8>)
    requires
        !(t matches TargetInfoClass::Implements { index } && index == 0xFFFF),
    ensures
        read_class_target(before + class_target_bytes(t) + after, before.len() as int)
            == Ok::<(TargetInfoClass, int), Error>((t, before.len() + class_target_bytes(t).len() as int)),
{
    let b = before + class_target_bytes(t) + after;
    let p = before.len() as int;
    match t {
        TargetInfoClass::Extends => {
            lemma_u16_round_trip(0xFFFF);
            assert(b[p + 1] == u16_bytes(0xFFFF)[0] && b[p + 2] == u16_bytes(0xFFFF)[1]);
        },
        TargetInfoClass::Implements { index } => {
            lemma_u16_round_trip(index);
            assert(b[p + 1] == u16_bytes(index)[0] && b[p + 2] == u16_bytes(index)[1]);
        },
        _ => {
            assert(b[p] == class_target_bytes(t)[0]);
        },
    }
}

/// A field target that is written is read back.
pub proof fn lemma_field_target_round_trip(t: TargetInfoField, before: Seq<u8>, after: Seq<u8>)
    ensures
        read_field_target(before + field_target_bytes(t) + after, before.len() as int)
            == Ok::<(TargetInfoField, int), Error>((t, before.len() + field_target_bytes(t).len() as int)),
{
    let b = before + field_target_bytes(t) + after;
    assert(b[before.len() as int] == FIELD);
}

/// A method target that is written is read back.
pub proof fn lemma_method_target_round_trip(t: TargetInfoMethod, before: Seq<u8>, after: Seq<u8>)
    ensures
        read_method_target(before + method_target_bytes(t) + after, before.len() as int)
            == Ok::<(TargetInfoMethod, int), Error>((t, before.len() + method_target_bytes(t).len() as int)),
{
    let b = before + method_target_bytes(t) + after;
    let p = before.len() as int;
    assert(b[p] == method_target_bytes(t)[0]);
    match t {
        TargetInfoMethod::Throws { index } => {
            lemma_u16_round_trip(index);
            assert(b[p + 1] == u16_bytes(index)[0] && b[p + 2] == u16_bytes(index)[1]);
        },
        TargetInfoMethod::MethodTypeParameterBound { .. } => {
            assert(b[p + 1] == method_target_bytes(t)[1] && b[p + 2] == method_target_bytes(t)[2]);
        },
        TargetInfoMethod::MethodTypeParameter { .. } | TargetInfoMethod::FormalParameter { .. } => {
            assert(b[p + 1] == method_target_bytes(t)[1]);
        },
        _ => {},
    }
}

/// Type path steps that are written are read back.
proof fn lemma_kinds_round_trip(ks: Seq<TypePathKind>, before: Seq<u8>, after: Seq<u8>)
    ensures
        read_kinds(before + kinds_bytes(ks) + after, before.len() as int, ks.len() as int)
            == Ok::<(Seq<TypePathKind>, int), Error>((ks, before.len() + kinds_bytes(ks).len() as int)),
    decreases ks.len(),
{
    let b = before + kinds_bytes(ks) + after;
    let p = before.len() as int;
    if ks.len() == 0 {
        assert(Seq::<TypePathKind>::empty() =~= ks);
    } else {
        let k = ks[0];
        let tail = ks.skip(1);
        let before2 = before + kind_bytes(k);
        assert(b =~= before2 + kinds_bytes(tail) + after);
        assert(b[p] == kind_bytes(k)[0] && b[p + 1] == kind_bytes(k)[1]);
        lemma_kinds_round_trip(tail, before2, after);
        assert(seq![k] + tail =~= ks);
    }
}

/// A type path that is written is read back, if it has at most 255 steps.
pub proof fn lemma_type_path_round_trip(p: Seq<TypePathKind>, before: Seq<u8>, after: Seq<u8>)
    requires
        p.len() <= 255,
    ensures
        read_type_path_at(before + type_path_bytes(p) + after, before.len() as int)
            == Ok::<(Seq<TypePathKind>, int), Error>((p, before.len() + type_path_bytes(p).len() as int)),
{
    let b = before + type_path_bytes(p) + after;
    let before2 = before + seq![p.len() as u8];
    assert(b =~= before2 + kinds_bytes(p) + after);
    assert(b[before.len() as int] == p.len() as u8);
    lemma_kinds_round_trip(p, before2, after);
}

// ----- reading and writing -----

impl TargetInfoClass {
    /// Reads a class target.
    pub fn read_type_reference(reader: &mut ClassReader) -> (r: Result<TargetInfoClass, Error>)
        ensures
            final(reader).data() == old(reader).data(),
            match read_class_target(old(reader).data(), old(reader).position() as int) {
                Ok((t, end)) => r == Ok::<TargetInfoClass, Error>(t) && final(reader).position() == end,
                Err(e) => r == Err::<TargetInfoClass, Error>(e),
            },
    {
        let tag = reader.read_u8()?;
        if tag == CLASS_TYPE_PARAMETER {
            let index = reader.read_u8()?;
            Ok(TargetInfoClass::ClassTypeParameter { index })
        } else if tag == CLASS_EXTENDS {
            let index = reader.read_u16()?;
            if index == 0xFFFF {
                Ok(TargetInfoClass::Extends)
            } else {
                Ok(TargetInfoClass::Implements { index })
            }
        } else if tag == CLASS_TYPE_PARAMETER_BOUND {
            let type_parameter_index = reader.read_u8()?;
            let bound_index = reader.read_u8()?;
            Ok(TargetInfoClass::ClassTypeParameterBound { type_parameter_index, bound_index })
        } else {
            Err(Error::UnknownTag)
        }
    }

    /// Writes a class target.
    pub fn write_type_reference(w: &mut Vec<u8>, type_reference: &TargetInfoClass)
        ensures
            final(w)@ == old(w)@ + class_target_bytes(*type_reference),
    {
        let ghost w0 = w@;
        match type_reference {
            TargetInfoClass::ClassTypeParameter { index } => {
                write_u8(w, CLASS_TYPE_PARAMETER);
                write_u8(w, *index);
            },
            TargetInfoClass::Extends => {
                write_u8(w, CLASS_EXTENDS);
                write_u16(w, 0xFFFF);
            },
            TargetInfoClass::Implements { index } => {
                write_u8(w, CLASS_EXTENDS);
                write_u16(w, *index);
            },
            TargetInfoClass::ClassTypeParameterBound { type_parameter_index, bound_index } => {
                write_u8(w, CLASS_TYPE_PARAMETER_BOUND);
                write_u8(w, *type_parameter_index);
                write_u8(w, *bound_index);
            },
        }
        assert(w@ =~= w0 + class_target_bytes(*type_reference));
    }
}

impl TargetInfoField {
    /// Reads a field target.
    pub fn read_type_reference(reader: &mut ClassReader) -> (r: Result<TargetInfoField, Error>)
        ensures
            final(reader).data() == old(reader).data(),
            match read_field_target(old(reader).data(), old(reader).position() as int) {
                Ok((t, end)) => r == Ok::<TargetInfoField, Error>(t) && final(reader).position() == end,
                Err(e) => r == Err::<TargetInfoField, Error>(e),
            },
    {
        let tag = reader.read_u8()?;
        if tag == FIELD {
            Ok(TargetInfoField::Field)
        } else {
            Err(Error::UnknownTag)
        }
    }

    /// Writes a field target.
    pub fn write_type_reference(w: &mut Vec<u8>, type_reference: &TargetInfoField)
        ensures
            final(w)@ == old(w)@ + field_target_bytes(*type_reference),
    {
        let ghost w0 = w@;
        match type_reference {
            TargetInfoField::Field => {
                write_u8(w, FIELD);
            },
        }
        assert(w@ =~= w0 + field_target_bytes(*type_reference));
    }
}

impl TargetInfoMethod {
    /// Reads a method target.
    pub fn read_type_reference(reader: &mut ClassReader) -> (r: Result<TargetInfoMethod, Error>)
        ensures
            final(reader).data() == old(reader).data(),
            match read_method_target(old(reader).data(), old(reader).position() as int) {
                Ok((t, end)) => r == Ok::<TargetInfoMethod, Error>(t) && final(reader).position() == end,
                Err(e) => r == Err::<TargetInfoMethod, Error>(e),
            },
    {
        let tag = reader.read_u8()?;
        if tag == METHOD_TYPE_PARAMETER {
            let index = reader.read_u8()?;
            Ok(TargetInfoMethod::MethodTypeParameter { index })
        } else if tag == METHOD_TYPE_PARAMETER_BOUND {
            let type_parameter_index = reader.read_u8()?;
            let bound_index = reader.read_u8()?;
            Ok(TargetInfoMethod::MethodTypeParameterBound { type_parameter_index, bound_index })
        } else if tag == METHOD_RETURN {
            Ok(TargetInfoMethod::Return)
        } else if tag == METHOD_RECEIVER {
            Ok(TargetInfoMethod::Receiver)
        } else if tag == METHOD_FORMAL_PARAMETER {
            let index = reader.read_u8()?;
            Ok(TargetInfoMethod::FormalParameter { index })
        } else if tag == THROWS {
            let index = reader.read_u16()?;
            Ok(TargetInfoMethod::Throws { index })
        } else {
            Err(Error::UnknownTag)
        }
    }

    /// Writes a method target.
    pub fn write_type_reference(w: &mut Vec<u8>, type_reference: &TargetInfoMethod)
        ensures
            final(w)@ == old(w)@ + method_target_bytes(*type_reference),
    {
        let ghost w0 = w@;
        match type_reference {
            TargetInfoMethod::MethodTypeParameter { index } => {
                write_u8(w, METHOD_TYPE_PARAMETER);
                write_u8(w, *index);
            },
            TargetInfoMethod::MethodTypeParameterBound { type_parameter_index, bound_index } => {
                write_u8(w, METHOD_TYPE_PARAMETER_BOUND);
                write_u8(w, *type_parameter_index);
                write_u8(w, *bound_index);
            },
            TargetInfoMethod::Return => {
                write_u8(w, METHOD_RETURN);
            },
            TargetInfoMethod::Receiver => {
                write_u8(w, METHOD_RECEIVER);
            },
            TargetInfoMethod::FormalParameter { index } => {
                write_u8(w, METHOD_FORMAL_PARAMETER);
                write_u8(w, *index);
            },
            TargetInfoMethod::Throws { index } => {
                write_u8(w, THROWS);
                write_u16(w, *index);
            },
        }
        assert(w@ =~= w0 + method_target_bytes(*type_reference));
    }
}

/// Reads a type path: the number of steps, then each step as a kind and a type argument index.
pub fn read_type_path(reader: &mut ClassReader) -> (r: Result<TypePath, Error>)
    ensures
        final(reader).data() == old(reader).data(),
        match read_type_path_at(old(reader).data(), old(reader).position() as int) {
            Ok((ks, end)) => r matches Ok(p) && p@ == ks && final(reader).position() == end,
            Err(e) => r is Err && r == Err::<TypePath, Error>(e),
        },
{
    let ghost b = reader.data();
    let n = reader.read_u8()?;
    let mut path: Vec<TypePathKind> = Vec::new();
    let mut i: u8 = 0;
    assert(path@ + Seq::<TypePathKind>::empty() =~= Seq::<TypePathKind>::empty());
    while i < n
        invariant
            reader.data() == b,
            b == old(reader).data(),
            old(reader).position() + 1 <= b.len(),
            n == b[old(reader).position() as int],
            i <= n,
            read_type_path_at(b, old(reader).position() as int) == match read_kinds(b, reader.position() as int, n - i) {
                Ok((ks, end)) => Ok::<(Seq<TypePathKind>, int), Error>((path@ + ks, end)),
                Err(e) => Err(e),
            },
        decreases n - i,
    {
        let ghost pos = reader.position() as int;
        let type_path_kind = match reader.read_u8() {
            Ok(k) => k,
            Err(e) => { return Err(e); },
        };
        let type_argument_index = match reader.read_u8() {
            Ok(x) => x,
            Err(e) => { return Err(e); },
        };
        let kind = if type_path_kind == 3 {
            TypePathKind::TypeArgument { index: type_argument_index }
        } else if type_path_kind > 3 || type_argument_index != 0 {
            return Err(Error::InvalidTypePath);
        } else if type_path_kind == 0 {
            TypePathKind::ArrayDeeper
        } else if type_path_kind == 1 {
            TypePathKind::NestedDeeper
        } else {
            TypePathKind::WildcardBound
        };
        proof {
            match read_kinds(b, pos + 2, n - i - 1) {
                Ok((ks, end)) => {
                    assert(path@ + (seq![kind] + ks) =~= path@.push(kind) + ks);
                },
                Err(e) => {},
            }
        }
        path.push(kind);
        i = i + 1;
    }
    proof {
        assert(path@ + Seq::<TypePathKind>::empty() =~= path@);
    }
    Ok(TypePath { path })
}

/// Writes a type path; fails with [`Error::ValueTooLarge`], writing nothing, if
/// it has more than 255 steps.
pub fn write_type_path(w: &mut Vec<u8>, type_path: &TypePath) -> (r: Result<(), Error>)
    ensures
        type_path@.len() <= 255 ==> r is Ok && final(w)@ == old(w)@ + type_path_bytes(type_path@),
        type_path@.len() > 255 ==> r == Err::<(), Error>(Error::ValueTooLarge) && final(w)@ == old(w)@,
{
    let ghost w0 = w@;
    let ghost p = type_path@;
    write_usize_as_u8(w, type_path.path.len())?;
    let mut i: usize = 0;
    while i < type_path.path.len()
        invariant
            p == type_path@,
            p.len() <= 255,
            i <= p.len(),
            w@ == w0 + seq![p.len() as u8] + kinds_bytes(p.subrange(0, i as int)),
        decreases p.len() - i,
    {
        let (type_path_kind, type_argument_index): (u8, u8) = match type_path.path[i] {
            TypePathKind::ArrayDeeper => (0, 0),
            TypePathKind::NestedDeeper => (1, 0),
            TypePathKind::WildcardBound => (2, 0),
            TypePathKind::TypeArgument { index } => (3, index),
        };
        write_u8(w, type_path_kind);
        write_u8(w, type_argument_index);
        proof {
            lemma_kinds_bytes_push(p.subrange(0, i as int), p[i as int]);
            assert(p.subrange(0, i + 1) =~= p.subrange(0, i as int).push(p[i as int]));
        }
        i = i + 1;
    }
    proof {
        assert(p.subrange(0, p.len() as int) =~= p);
    }
    Ok(())
}

/// Adding a step at the end adds its bytes at the end.
proof fn lemma_kinds_bytes_push(ks: Seq<TypePathKind>, k: TypePathKind)
    ensures
        kinds_bytes(ks.push(k)) == kinds_bytes(ks) + kind_bytes(k),
    decreases ks.len(),
{
    if ks.len() == 0 {
        assert(ks.push(k).skip(1) =~= Seq::<TypePathKind>::empty());
        assert(kinds_bytes(ks.push(k)) =~= kind_bytes(k) + kinds_bytes(Seq::<TypePathKind>::empty()));
        assert(kinds_bytes(ks) + kind_bytes(k) =~= kind_bytes(k));
    } else {
        assert(ks.push(k).skip(1) =~= ks.skip(1).push(k));
        lemma_kinds_bytes_push(ks.skip(1), k);
        assert(ks.push(k)[0] == ks[0]);
        assert(kinds_bytes(ks.push(k)) =~= kind_bytes(ks[0]) + (kinds_bytes(ks.skip(1)) + kind_bytes(k)));
    }
}


// ----- targets inside the `Code` attribute -----

/// States exactly on which type the annotation is, for inside the `Code` attribute.
#[derive(Debug, PartialEq, Eq)]
pub enum TargetInfoCode {
    /// The annotation is on the type of a local variable declaration; in each
    /// range the variable can be found at the index.
    LocalVariable {
        table: Vec<(LabelRange, LvIndex)>,
    },
    /// The annotation is on the type of a resource variable declaration.
    ResourceVariable {
        table: Vec<(LabelRange, LvIndex)>,
    },
    /// The annotation is on the type of a `catch` clause.
    ExceptionParameter {
        /// The index into the exception table of the `Code` attribute.
        index: u16,
    },
    /// The annotation is on the type of an `instanceof` expression.
    InstanceOf(Label),
    /// The annotation is on the type of a `new` expression.
    New(Label),
    /// The annotation is on the type before the `::` of a constructor reference.
    ConstructorReference(Label),
    /// The annotation is on the type before the `::` of a method reference.
    MethodReference(Label),
    /// The annotation is on the `index`th type in a cast expression.
    Cast {
        label: Label,
        index: u8,
    },
    /// The annotation is on the `index`th explicit type argument of a constructor call.
    ConstructorInvocationTypeArgument {
        label: Label,
        index: u8,
    },
    /// The annotation is on the `index`th explicit type argument of a method call.
    MethodInvocationTypeArgument {
        label: Label,
        index: u8,
    },
    /// The annotation is on the `index`th explicit type argument of a constructor reference.
    ConstructorReferenceTypeArgument {
        label: Label,
        index: u8,
    },
    /// The annotation is on the `index`th explicit type argument of a method reference.
    MethodReferenceTypeArgument {
        label: Label,
        index: u8,
    },
}

/// The model of a [`TargetInfoCode`]: the tag byte, the table, and the other fields.
pub ghost struct CodeTargetModel {
    pub tag: u8,
    pub table: Seq<(LabelRange, LvIndex)>,
    pub index: u16,
    pub label: Label,
}

impl View for TargetInfoCode {
    type V = CodeTargetModel;

    open spec fn view(&self) -> CodeTargetModel {
        let none = Label { id: 0 };
        match self {
            TargetInfoCode::LocalVariable { table } => CodeTargetModel { tag: LOCAL_VARIABLE, table: table@, index: 0, label: none },
            TargetInfoCode::ResourceVariable { table } => CodeTargetModel { tag: RESOURCE_VARIABLE, table: table@, index: 0, label: none },
            TargetInfoCode::ExceptionParameter { index } =>
                CodeTargetModel { tag: EXCEPTION_PARAMETER, table: Seq::empty(), index: *index, label: none },
            TargetInfoCode::InstanceOf(l) => CodeTargetModel { tag: INSTANCE_OF, table: Seq::empty(), index: 0, label: *l },
            TargetInfoCode::New(l) => CodeTargetModel { tag: NEW, table: Seq::empty(), index: 0, label: *l },
            TargetInfoCode::ConstructorReference(l) =>
                CodeTargetModel { tag: CONSTRUCTOR_REFERENCE, table: Seq::empty(), index: 0, label: *l },
            TargetInfoCode::MethodReference(l) => CodeTargetModel { tag: METHOD_REFERENCE, table: Seq::empty(), index: 0, label: *l },
            TargetInfoCode::Cast { label, index } =>
                CodeTargetModel { tag: CAST, table: Seq::empty(), index: *index as u16, label: *label },
            TargetInfoCode::ConstructorInvocationTypeArgument { label, index } =>
                CodeTargetModel { tag: CONSTRUCTOR_INVOCATION_TYPE_ARGUMENT, table: Seq::empty(), index: *index as u16, label: *label },
            TargetInfoCode::MethodInvocationTypeArgument { label, index } =>
                CodeTargetModel { tag: METHOD_INVOCATION_TYPE_ARGUMENT, table: Seq::empty(), index: *index as u16, label: *label },
            TargetInfoCode::ConstructorReferenceTypeArgument { label, index } =>
                CodeTargetModel { tag: CONSTRUCTOR_REFERENCE_TYPE_ARGUMENT, table: Seq::empty(), index: *index as u16, label: *label },
            TargetInfoCode::MethodReferenceTypeArgument { label, index } =>
                CodeTargetModel { tag: METHOD_REFERENCE_TYPE_ARGUMENT, table: Seq::empty(), index: *index as u16, label: *label },
        }
    }
}

/// Whether a tag stands for a target with a table of ranges.
pub open spec fn is_table_tag(tag: u8) -> bool {
    tag == LOCAL_VARIABLE || tag == RESOURCE_VARIABLE
}

/// Whether a tag stands for a target with a label only.
pub open spec fn is_label_tag(tag: u8) -> bool {
    tag == INSTANCE_OF || tag == NEW || tag == CONSTRUCTOR_REFERENCE || tag == METHOD_REFERENCE
}

/// Whether a tag stands for a target with a label and a one-byte index.
pub open spec fn is_label_index_tag(tag: u8) -> bool {
    CAST <= tag <= METHOD_REFERENCE_TYPE_ARGUMENT
}

/// The range of length `length` from `start`, with its labels.
pub open spec fn range_at(m: Map<u16, Label>, start: u16, length: u16, len: u16) -> CodeRead<LabelRange> {
    if start >= len {
        CodeRead::Fail(Error::LabelOutOfBounds)
    } else if start + length > 0xFFFF {
        CodeRead::Overflow
    } else if start + length > len {
        CodeRead::Fail(Error::LabelOutOfBounds)
    } else {
        let m2 = add_label(add_label(m, start), (start + length) as u16);
        CodeRead::Read(LabelRange { start: m2[start], end: m2[(start + length) as u16] }, 0, m2)
    }
}

/// Reading `n` entries of a table of ranges at `pos`.
pub open spec fn read_range_table(b: Seq<u8>, pos: int, n: int, m: Map<u16, Label>, len: u16)
    -> CodeRead<Seq<(LabelRange, LvIndex)>>
    decreases n,
{
    if n <= 0 {
        CodeRead::Read(Seq::empty(), pos, m)
    } else if pos + 4 > b.len() {
        CodeRead::Fail(Error::UnexpectedEnd)
    } else {
        match range_at(m, be_u16(b, pos), be_u16(b, pos + 2), len) {
            CodeRead::Read(range, _, m2) => if pos + 6 > b.len() {
                CodeRead::Fail(Error::UnexpectedEnd)
            } else {
                let entry = (range, LvIndex { index: be_u16(b, pos + 4) });
                match read_range_table(b, pos + 6, n - 1, m2, len) {
                    CodeRead::Read(rest, end, m3) => CodeRead::Read(seq![entry] + rest, end, m3),
                    CodeRead::Fail(e) => CodeRead::Fail(e),
                    CodeRead::Overflow => CodeRead::Overflow,
                }
            },
            CodeRead::Fail(e) => CodeRead::Fail(e),
            CodeRead::Overflow => CodeRead::Overflow,
        }
    }
}

/// Reading a code target at `pos`, with the labels `m` of code of length `len`.
pub open spec fn read_code_target(b: Seq<u8>, pos: int, m: Map<u16, Label>, len: u16) -> CodeRead<CodeTargetModel> {
    let none = Label { id: 0 };
    if pos + 1 > b.len() {
        CodeRead::Fail(Error::UnexpectedEnd)
    } else {
        let tag = b[pos];
        let p = pos + 1;
        if is_table_tag(tag) {
            if p + 2 > b.len() {
                CodeRead::Fail(Error::UnexpectedEnd)
            } else {
                match read_range_table(b, p + 2, be_u16(b, p) as int, m, len) {
                    CodeRead::Read(table, end, m2) => CodeRead::Read(CodeTargetModel { tag, table, index: 0, label: none }, end, m2),
                    CodeRead::Fail(e) => CodeRead::Fail(e),
                    CodeRead::Overflow => CodeRead::Overflow,
                }
            }
        } else if tag == EXCEPTION_PARAMETER {
            if p + 2 > b.len() {
                CodeRead::Fail(Error::UnexpectedEnd)
            } else {
                CodeRead::Read(CodeTargetModel { tag, table: Seq::empty(), index: be_u16(b, p), label: none }, p + 2, m)
            }
        } else if is_label_tag(tag) || is_label_index_tag(tag) {
            if p + 2 > b.len() {
                CodeRead::Fail(Error::UnexpectedEnd)
            } else if be_u16(b, p) >= len {
                CodeRead::Fail(Error::LabelOutOfBounds)
            } else {
                let m2 = add_label(m, be_u16(b, p));
                let label = m2[be_u16(b, p)];
                if is_label_tag(tag) {
                    CodeRead::Read(CodeTargetModel { tag, table: Seq::empty(), index: 0, label }, p + 2, m2)
                } else if p + 3 > b.len() {
                    CodeRead::Fail(Error::UnexpectedEnd)
                } else {
                    CodeRead::Read(CodeTargetModel { tag, table: Seq::empty(), index: b[p + 2] as u16, label }, p + 3, m2)
                }
            }
        } else {
            CodeRead::Fail(Error::UnknownTag)
        }
    }
}

/// Reads a table of ranges and local variable indices.
fn read_range_table_exec(reader: &mut ClassReader, labels: &mut Labels) -> (r: Result<Vec<(LabelRange, LvIndex)>, Error>)
    requires
        old(labels).wf(),
        !(read_range_table_at(old(reader).data(), old(reader).position() as int, old(labels).map(), old(labels).code_length()) is Overflow),
    ensures
        final(reader).data() == old(reader).data(),
        final(labels).wf(),
        final(labels).code_length() == old(labels).code_length(),
        match read_range_table_at(old(reader).data(), old(reader).position() as int, old(labels).map(), old(labels).code_length()) {
            CodeRead::Read(table, end, m2) => r matches Ok(v) && v@ == table && final(reader).position() == end
                && final(labels).map() == m2,
            CodeRead::Fail(e) => r is Err && r == Err::<Vec<(LabelRange, LvIndex)>, Error>(e),
            CodeRead::Overflow => false,
        },
{
    let ghost b = reader.data();
    let ghost len = labels.code_length();
    let length = reader.read_u16()?;
    let mut table: Vec<(LabelRange, LvIndex)> = Vec::new();
    let mut i: u16 = 0;
    let ghost whole = read_range_table_at(b, old(reader).position() as int, old(labels).map(), len);
    assert(whole == read_range_table(b, reader.position() as int, length as int, labels.map(), len));
    assert(table@ + Seq::<(LabelRange, LvIndex)>::empty() =~= Seq::<(LabelRange, LvIndex)>::empty());
    while i < length
        invariant
            reader.data() == b,
            b == old(reader).data(),
            labels.wf(),
            labels.code_length() == len,
            len == old(labels).code_length(),
            i <= length,
            whole == read_range_table_at(old(reader).data(), old(reader).position() as int, old(labels).map(), old(labels).code_length()),
            !(whole is Overflow),
            whole == match read_range_table(b, reader.position() as int, length - i, labels.map(), len) {
                CodeRead::Read(rest, end, m3) => CodeRead::Read(table@ + rest, end, m3),
                CodeRead::Fail(e) => CodeRead::Fail(e),
                CodeRead::Overflow => CodeRead::Overflow,
            },
        decreases length - i,
    {
        let ghost pos = reader.position() as int;
        let ghost m = labels.map();
        let start_pc = match reader.read_u16() {
            Ok(x) => x,
            Err(e) => { return Err(e); },
        };
        let length_pc = match reader.read_u16() {
            Ok(x) => x,
            Err(e) => { return Err(e); },
        };
        let range = match labels.get_or_create_range(start_pc, length_pc) {
            Ok(x) => x,
            Err(e) => { return Err(e); },
        };
        let index = match reader.read_u16() {
            Ok(x) => LvIndex { index: x },
            Err(e) => { return Err(e); },
        };
        proof {
            match read_range_table(b, pos + 6, length - i - 1, labels.map(), len) {
                CodeRead::Read(rest, end, m3) => {
                    assert(table@ + (seq![(range, index)] + rest) =~= table@.push((range, index)) + rest);
                },
                _ => {},
            }
        }
        table.push((range, index));
        i = i + 1;
    }
    proof {
        assert(table@ + Seq::<(LabelRange, LvIndex)>::empty() =~= table@);
    }
    Ok(table)
}

/// Reading a table of ranges at `pos`: a two-byte count, then the entries.
pub open spec fn read_range_table_at(b: Seq<u8>, pos: int, m: Map<u16, Label>, len: u16) -> CodeRead<Seq<(LabelRange, LvIndex)>> {
    if pos + 2 > b.len() {
        CodeRead::Fail(Error::UnexpectedEnd)
    } else {
        read_range_table(b, pos + 2, be_u16(b, pos) as int, m, len)
    }
}

/// Reads a target inside the `Code` attribute, creating the labels it refers to.
pub fn read_type_reference_code(reader: &mut ClassReader, labels: &mut Labels) -> (r: Result<TargetInfoCode, Error>)
    requires
        old(labels).wf(),
        !(read_code_target(old(reader).data(), old(reader).position() as int, old(labels).map(), old(labels).code_length()) is Overflow),
    ensures
        final(reader).data() == old(reader).data(),
        final(labels).wf(),
        final(labels).code_length() == old(labels).code_length(),
        match read_code_target(old(reader).data(), old(reader).position() as int, old(labels).map(), old(labels).code_length()) {
            CodeRead::Read(t, end, m2) => r matches Ok(x) && x@ == t && final(reader).position() == end
                && final(labels).map() == m2,
            CodeRead::Fail(e) => r is Err && r == Err::<TargetInfoCode, Error>(e),
            CodeRead::Overflow => false,
        },
{
    let tag = reader.read_u8()?;
    if tag == LOCAL_VARIABLE {
        let table = read_range_table_exec(reader, labels)?;
        Ok(TargetInfoCode::LocalVariable { table })
    } else if tag == RESOURCE_VARIABLE {
        let table = read_range_table_exec(reader, labels)?;
        Ok(TargetInfoCode::ResourceVariable { table })
    } else if tag == EXCEPTION_PARAMETER {
        let index = reader.read_u16()?;
        Ok(TargetInfoCode::ExceptionParameter { index })
    } else if tag == INSTANCE_OF {
        let label = labels.get_or_create(reader.read_u16()?)?;
        Ok(TargetInfoCode::InstanceOf(label))
    } else if tag == NEW {
        let label = labels.get_or_create(reader.read_u16()?)?;
        Ok(TargetInfoCode::New(label))
    } else if tag == CONSTRUCTOR_REFERENCE {
        let label = labels.get_or_create(reader.read_u16()?)?;
        Ok(TargetInfoCode::ConstructorReference(label))
    } else if tag == METHOD_REFERENCE {
        let label = labels.get_or_create(reader.read_u16()?)?;
        Ok(TargetInfoCode::MethodReference(label))
    } else if tag == CAST {
        let label = labels.get_or_create(reader.read_u16()?)?;
        let index = reader.read_u8()?;
        Ok(TargetInfoCode::Cast { label, index })
    } else if tag == CONSTRUCTOR_INVOCATION_TYPE_ARGUMENT {
        let label = labels.get_or_create(reader.read_u16()?)?;
        let index = reader.read_u8()?;
        Ok(TargetInfoCode::ConstructorInvocationTypeArgument { label, index })
    } else if tag == METHOD_INVOCATION_TYPE_ARGUMENT {
        let label = labels.get_or_create(reader.read_u16()?)?;
        let index = reader.read_u8()?;
        Ok(TargetInfoCode::MethodInvocationTypeArgument { label, index })
    } else if tag == CONSTRUCTOR_REFERENCE_TYPE_ARGUMENT {
        let label = labels.get_or_create(reader.read_u16()?)?;
        let index = reader.read_u8()?;
        Ok(TargetInfoCode::ConstructorReferenceTypeArgument { label, index })
    } else if tag == METHOD_REFERENCE_TYPE_ARGUMENT {
        let label = labels.get_or_create(reader.read_u16()?)?;
        let index = reader.read_u8()?;
        Ok(TargetInfoCode::MethodReferenceTypeArgument { label, index })
    } else {
        Err(Error::UnknownTag)
    }
}


/// The bytes of one table entry, with the offsets `t` of the labels.
pub open spec fn range_entry_bytes(t: Map<u16, u16>, entry: (LabelRange, LvIndex)) -> Result<Seq<u8>, Error> {
    let (range, index) = entry;
    if !t.contains_key(range.start.id) || !t.contains_key(range.end.id) {
        Err(Error::MissingLabel)
    } else {
        Ok(u16_bytes(t[range.start.id]) + u16_bytes((t[range.end.id] - t[range.start.id]) as u16) + u16_bytes(index.index))
    }
}

/// The bytes of the entries of a table, with the offsets `t` of the labels.
pub open spec fn range_table_bytes(t: Map<u16, u16>, table: Seq<(LabelRange, LvIndex)>) -> Result<Seq<u8>, Error>
    decreases table.len(),
{
    if table.len() == 0 {
        Ok(Seq::empty())
    } else {
        match range_entry_bytes(t, table[0]) {
            Ok(x) => match range_table_bytes(t, table.skip(1)) {
                Ok(y) => Ok(x + y),
                Err(e) => Err(e),
            },
            Err(e) => Err(e),
        }
    }
}

/// Every range whose labels have offsets ends no earlier than it starts.
pub open spec fn ranges_ordered(t: Map<u16, u16>, table: Seq<(LabelRange, LvIndex)>) -> bool {
    forall|k: int| 0 <= k < table.len() && t.contains_key(#[trigger] table[k].0.start.id) && t.contains_key(table[k].0.end.id)
        ==> t[table[k].0.start.id] <= t[table[k].0.end.id]
}

/// The bytes of a code target, with the offsets `t` of the labels.
pub open spec fn code_target_bytes(t: Map<u16, u16>, c: CodeTargetModel) -> Result<Seq<u8>, Error> {
    if is_table_tag(c.tag) {
        if c.table.len() > 0xFFFF {
            Err(Error::ValueTooLarge)
        } else {
            match range_table_bytes(t, c.table) {
                Ok(x) => Ok(seq![c.tag] + u16_bytes(c.table.len() as u16) + x),
                Err(e) => Err(e),
            }
        }
    } else if c.tag == EXCEPTION_PARAMETER {
        Ok(seq![c.tag] + u16_bytes(c.index))
    } else if !t.contains_key(c.label.id) {
        Err(Error::MissingLabel)
    } else if is_label_tag(c.tag) {
        Ok(seq![c.tag] + u16_bytes(t[c.label.id]))
    } else {
        Ok(seq![c.tag] + u16_bytes(t[c.label.id]) + seq![c.index as u8])
    }
}

/// Appending a table entry.
proof fn lemma_range_table_bytes_push(t: Map<u16, u16>, table: Seq<(LabelRange, LvIndex)>, e: (LabelRange, LvIndex))
    ensures
        range_table_bytes(t, table.push(e)) == match range_table_bytes(t, table) {
            Ok(x) => match range_entry_bytes(t, e) {
                Ok(y) => Ok(x + y),
                Err(err) => Err(err),
            },
            Err(err) => Err::<Seq<u8>, Error>(err),
        },
    decreases table.len(),
{
    if table.len() == 0 {
        let one = table.push(e);
        assert(one.skip(1) =~= Seq::<(LabelRange, LvIndex)>::empty());
        assert(range_table_bytes(t, one.skip(1)) == Ok::<Seq<u8>, Error>(Seq::empty()));
        assert(range_table_bytes(t, table) == Ok::<Seq<u8>, Error>(Seq::empty()));
        assert(one[0] == e);
        match range_entry_bytes(t, e) {
            Ok(y) => {
                assert(y + Seq::<u8>::empty() =~= y);
                assert(Seq::<u8>::empty() + y =~= y);
            },
            Err(_) => {},
        }
    } else {
        assert(table.push(e).skip(1) =~= table.skip(1).push(e));
        assert(table.push(e)[0] == table[0]);
        lemma_range_table_bytes_push(t, table.skip(1), e);
        assert(range_table_bytes(t, table.push(e)) == match range_entry_bytes(t, table[0]) {
            Ok(x) => match range_table_bytes(t, table.skip(1).push(e)) {
                Ok(y) => Ok(x + y),
                Err(err) => Err(err),
            },
            Err(err) => Err::<Seq<u8>, Error>(err),
        });
        match range_entry_bytes(t, table[0]) {
            Ok(x) => match range_table_bytes(t, table.skip(1)) {
                Ok(y) => match range_entry_bytes(t, e) {
                    Ok(z) => { assert(x + (y + z) =~= (x + y) + z); },
                    Err(_) => {},
                },
                Err(_) => {},
            },
            Err(_) => {},
        }
    }
}

/// Writes a table of ranges and local variable indices.
fn write_range_table(w: &mut Vec<u8>, table: &Vec<(LabelRange, LvIndex)>, labels: &WriteLabels) -> (r: Result<(), Error>)
    requires
        ranges_ordered(labels.targets(), table@),
    ensures
        table@.len() > 0xFFFF ==> r == Err::<(), Error>(Error::ValueTooLarge),
        table@.len() <= 0xFFFF ==> match range_table_bytes(labels.targets(), table@) {
            Ok(x) => r is Ok && final(w)@ == old(w)@ + u16_bytes(table@.len() as u16) + x,
            Err(e) => r == Err::<(), Error>(e),
        },
{
    let ghost t = labels.targets();
    write_usize_as_u16(w, table.len())?;
    let ghost w1 = w@;
    let mut i: usize = 0;
    assert(table@.subrange(0, 0) =~= Seq::<(LabelRange, LvIndex)>::empty());
    assert(w1 + Seq::<u8>::empty() =~= w1);
    while i < table.len()
        invariant
            t == labels.targets(),
            ranges_ordered(t, table@),
            table@.len() <= 0xFFFF,
            w1 == old(w)@ + u16_bytes(table@.len() as u16),
            i <= table@.len(),
            range_table_bytes(t, table@.subrange(0, i as int)) matches Ok(x) && w@ == w1 + x,
        decreases table@.len() - i,
    {
        let (range, index) = table[i];
        proof {
            lemma_range_table_bytes_push(t, table@.subrange(0, i as int), table@[i as int]);
            assert(table@.subrange(0, i + 1) =~= table@.subrange(0, i as int).push(table@[i as int]));
            assert(t.contains_key(range.start.id) && t.contains_key(range.end.id) ==> t[range.start.id] <= t[range.end.id]) by {
                assert(table@[i as int].0 == range);
            }
        }
        let ghost before = w@;
        let (start_pc, length) = match labels.try_get_range(&range) {
            Ok(x) => x,
            Err(e) => {
                proof {
                    lemma_range_table_prefix_err(t, table@, i as int);
                }
                return Err(e);
            },
        };
        write_u16(w, start_pc);
        write_u16(w, length);
        write_u16(w, index.index);
        proof {
            let x = range_table_bytes(t, table@.subrange(0, i as int))->Ok_0;
            assert(w@ =~= w1 + (x + (u16_bytes(start_pc) + u16_bytes(length) + u16_bytes(index.index))));
        }
        i = i + 1;
    }
    assert(table@.subrange(0, table@.len() as int) =~= table@);
    Ok(())
}

/// A table whose entry `i` has no offsets cannot be written.
proof fn lemma_range_table_prefix_err(t: Map<u16, u16>, table: Seq<(LabelRange, LvIndex)>, i: int)
    requires
        0 <= i < table.len(),
        range_table_bytes(t, table.subrange(0, i)) is Ok,
        range_entry_bytes(t, table[i]) is Err,
    ensures
        range_table_bytes(t, table) == Err::<Seq<u8>, Error>(Error::MissingLabel),
    decreases i,
{
    if i == 0 {
        assert(range_entry_bytes(t, table[0]) == Err::<Seq<u8>, Error>(Error::MissingLabel));
    } else {
        let tail = table.skip(1);
        assert(table.subrange(0, i).skip(1) =~= tail.subrange(0, i - 1));
        assert(table.subrange(0, i)[0] == table[0]);
        assert(tail[i - 1] == table[i]);
        lemma_range_table_prefix_err(t, tail, i - 1);
    }
}

/// Writes a target inside the `Code` attribute, with the offsets `labels` knows.
pub fn write_type_reference_code(w: &mut Vec<u8>, type_reference: &TargetInfoCode, labels: &WriteLabels) -> (r: Result<(), Error>)
    requires
        ranges_ordered(labels.targets(), type_reference@.table),
    ensures
        match code_target_bytes(labels.targets(), type_reference@) {
            Ok(x) => r is Ok && final(w)@ == old(w)@ + x,
            Err(e) => r == Err::<(), Error>(e),
        },
{
    let ghost w0 = w@;
    let ghost t = labels.targets();
    match type_reference {
        TargetInfoCode::LocalVariable { table } => {
            write_u8(w, LOCAL_VARIABLE);
            let ghost w1 = w@;
            write_range_table(w, table, labels)?;
            proof {
                if let Ok(x) = range_table_bytes(t, table@) {
                    assert(w@ =~= w0 + (seq![LOCAL_VARIABLE] + u16_bytes(table@.len() as u16) + x));
                }
            }
        },
        TargetInfoCode::ResourceVariable { table } => {
            write_u8(w, RESOURCE_VARIABLE);
            write_range_table(w, table, labels)?;
            proof {
                if let Ok(x) = range_table_bytes(t, table@) {
                    assert(w@ =~= w0 + (seq![RESOURCE_VARIABLE] + u16_bytes(table@.len() as u16) + x));
                }
            }
        },
        TargetInfoCode::ExceptionParameter { index } => {
            write_u8(w, EXCEPTION_PARAMETER);
            write_u16(w, *index);
        },
        TargetInfoCode::InstanceOf(label) => {
            let pos = labels.try_get(label)?;
            write_u8(w, INSTANCE_OF);
            write_u16(w, pos);
        },
        TargetInfoCode::New(label) => {
            let pos = labels.try_get(label)?;
            write_u8(w, NEW);
            write_u16(w, pos);
        },
        TargetInfoCode::ConstructorReference(label) => {
            let pos = labels.try_get(label)?;
            write_u8(w, CONSTRUCTOR_REFERENCE);
            write_u16(w, pos);
        },
        TargetInfoCode::MethodReference(label) => {
            let pos = labels.try_get(label)?;
            write_u8(w, METHOD_REFERENCE);
            write_u16(w, pos);
        },
        TargetInfoCode::Cast { label, index } => {
            let pos = labels.try_get(label)?;
            write_u8(w, CAST);
            write_u16(w, pos);
            write_u8(w, *index);
        },
        TargetInfoCode::ConstructorInvocationTypeArgument { label, index } => {
            let pos = labels.try_get(label)?;
            write_u8(w, CONSTRUCTOR_INVOCATION_TYPE_ARGUMENT);
            write_u16(w, pos);
            write_u8(w, *index);
        },
        TargetInfoCode::MethodInvocationTypeArgument { label, index } => {
            let pos = labels.try_get(label)?;
            write_u8(w, METHOD_INVOCATION_TYPE_ARGUMENT);
            write_u16(w, pos);
            write_u8(w, *index);
        },
        TargetInfoCode::ConstructorReferenceTypeArgument { label, index } => {
            let pos = labels.try_get(label)?;
            write_u8(w, CONSTRUCTOR_REFERENCE_TYPE_ARGUMENT);
            write_u16(w, pos);
            write_u8(w, *index);
        },
        TargetInfoCode::MethodReferenceTypeArgument { label, index } => {
            let pos = labels.try_get(label)?;
            write_u8(w, METHOD_REFERENCE_TYPE_ARGUMENT);
            write_u16(w, pos);
            write_u8(w, *index);
        },
    }
    proof {
        if let Ok(x) = code_target_bytes(t, type_reference@) {
            assert(w@ =~= w0 + x);
        }
    }
    Ok(())
}


// ----- reading, then writing back -----

/// Every label of `m` is kept in `m2`.
pub open spec fn map_extends(m: Map<u16, Label>, m2: Map<u16, Label>) -> bool {
    forall|pc: u16| #[trigger] m.contains_key(pc) ==> m2.contains_key(pc) && m2[pc] == m[pc]
}

/// The offsets `t` put each label of `m` back at the offset it was read from.
pub open spec fn agrees(t: Map<u16, u16>, m: Map<u16, Label>) -> bool {
    forall|pc: u16| #[trigger] m.contains_key(pc) ==> t.contains_key(m[pc].id) && t[m[pc].id] == pc
}

/// Two bytes read as a `u16` are written back as the same two bytes.
proof fn lemma_u16_bytes_of(b: Seq<u8>, i: int)
    requires
        0 <= i,
        i + 2 <= b.len(),
    ensures
        u16_bytes(be_u16(b, i)) == b.subrange(i, i + 2),
{
    let x = b[i];
    let y = b[i + 1];
    assert((x as int * 0x100 + y as int) / 0x100 == x as int) by (nonlinear_arith)
        requires x < 256, y < 256;
    assert((x as int * 0x100 + y as int) % 0x100 == y as int) by (nonlinear_arith)
        requires x < 256, y < 256;
    assert(u16_bytes(be_u16(b, i)) =~= b.subrange(i, i + 2));
}

/// Asking for a label keeps all others and adds that one.
proof fn lemma_add_label_extends(m: Map<u16, Label>, pc: u16)
    ensures
        map_extends(m, add_label(m, pc)),
        add_label(m, pc).contains_key(pc),
{
}

/// A table that is read keeps all labels there were.
proof fn lemma_read_range_table_extends(b: Seq<u8>, pos: int, n: int, m: Map<u16, Label>, len: u16)
    ensures
        read_range_table(b, pos, n, m, len) matches CodeRead::Read(_, end, m3) ==> map_extends(m, m3) && end >= pos
            && (pos <= b.len() ==> end <= b.len()),
    decreases n,
{
    if n > 0 && pos + 4 <= b.len() {
        let start = be_u16(b, pos);
        let length = be_u16(b, pos + 2);
        if start < len && start + length <= len {
            let m1 = add_label(m, start);
            let m2 = add_label(m1, (start + length) as u16);
            lemma_add_label_extends(m, start);
            lemma_add_label_extends(m1, (start + length) as u16);
            lemma_read_range_table_extends(b, pos + 6, n - 1, m2, len);
        }
    }
}

/// Writing back a table of ranges that was read gives the bytes that were read.
proof fn lemma_range_table_read_write(b: Seq<u8>, pos: int, n: int, m: Map<u16, Label>, len: u16, t: Map<u16, u16>)
    requires
        0 <= pos <= b.len(),
        read_range_table(b, pos, n, m, len) matches CodeRead::Read(_, _, m3) && agrees(t, m3),
    ensures
        read_range_table(b, pos, n, m, len) matches CodeRead::Read(table, end, _)
            && range_table_bytes(t, table) == Ok::<Seq<u8>, Error>(b.subrange(pos, end))
            && ranges_ordered(t, table) && table.len() == (if n > 0 { n } else { 0 }),
    decreases n,
{
    lemma_read_range_table_extends(b, pos, n, m, len);
    if n <= 0 {
        assert(b.subrange(pos, pos) =~= Seq::<u8>::empty());
    } else {
        let start = be_u16(b, pos);
        let length = be_u16(b, pos + 2);
        let m1 = add_label(m, start);
        let m2 = add_label(m1, (start + length) as u16);
        let range = LabelRange { start: m2[start], end: m2[(start + length) as u16] };
        let entry = (range, LvIndex { index: be_u16(b, pos + 4) });
        lemma_add_label_extends(m, start);
        lemma_add_label_extends(m1, (start + length) as u16);
        lemma_read_range_table_extends(b, pos + 6, n - 1, m2, len);
        lemma_range_table_read_write(b, pos + 6, n - 1, m2, len, t);
        let rest = read_range_table(b, pos + 6, n - 1, m2, len)->Read_0;
        let end = read_range_table(b, pos + 6, n - 1, m2, len)->Read_1;
        let m3 = read_range_table(b, pos + 6, n - 1, m2, len)->Read_2;
        assert(m2.contains_key(start) && m2.contains_key((start + length) as u16));
        assert(m3.contains_key(start) && m3[start] == m2[start]);
        assert(m3.contains_key((start + length) as u16) && m3[(start + length) as u16] == m2[(start + length) as u16]);
        assert(t[range.start.id] == start);
        assert(t[range.end.id] == (start + length) as u16);
        lemma_u16_bytes_of(b, pos);
        lemma_u16_bytes_of(b, pos + 2);
        lemma_u16_bytes_of(b, pos + 4);
        let table = seq![entry] + rest;
        assert(table[0] == entry);
        assert(table.skip(1) =~= rest);
        assert(range_entry_bytes(t, entry) == Ok::<Seq<u8>, Error>(b.subrange(pos, pos + 6))) by {
            assert(((start + length) as u16 - start) as u16 == length);
            assert(b.subrange(pos, pos + 6) =~= b.subrange(pos, pos + 2) + b.subrange(pos + 2, pos + 4) + b.subrange(pos + 4, pos + 6));
        }
        assert(b.subrange(pos, end) =~= b.subrange(pos, pos + 6) + b.subrange(pos + 6, end));
        assert forall|k: int| 0 <= k < table.len() && t.contains_key(#[trigger] table[k].0.start.id) && t.contains_key(table[k].0.end.id)
            implies t[table[k].0.start.id] <= t[table[k].0.end.id] by {
            if k > 0 {
                assert(table[k] == rest[k - 1]);
            }
        }
    }
}

/// Writing back a code target that was read, with every label at the offset
/// it was read from, gives the bytes that were read.
pub proof fn lemma_code_target_read_write(b: Seq<u8>, pos: int, m: Map<u16, Label>, len: u16, t: Map<u16, u16>)
    requires
        0 <= pos,
        read_code_target(b, pos, m, len) matches CodeRead::Read(_, _, m2) && agrees(t, m2),
    ensures
        read_code_target(b, pos, m, len) matches CodeRead::Read(c, end, _)
            && code_target_bytes(t, c) == Ok::<Seq<u8>, Error>(b.subrange(pos, end))
            && ranges_ordered(t, c.table),
{
    let tag = b[pos];
    let p = pos + 1;
    let c = read_code_target(b, pos, m, len)->Read_0;
    let end = read_code_target(b, pos, m, len)->Read_1;
    if is_table_tag(tag) {
        lemma_read_range_table_extends(b, p + 2, be_u16(b, p) as int, m, len);
        lemma_range_table_read_write(b, p + 2, be_u16(b, p) as int, m, len, t);
        lemma_u16_bytes_of(b, p);
        assert(b.subrange(pos, end) =~= seq![tag] + b.subrange(p, p + 2) + b.subrange(p + 2, end));
    } else if tag == EXCEPTION_PARAMETER {
        lemma_u16_bytes_of(b, p);
        assert(b.subrange(pos, end) =~= seq![tag] + b.subrange(p, p + 2));
    } else {
        let pc = be_u16(b, p);
        lemma_add_label_extends(m, pc);
        lemma_u16_bytes_of(b, p);
        assert(t[c.label.id] == pc);
        if is_label_tag(tag) {
            assert(b.subrange(pos, end) =~= seq![tag] + b.subrange(p, p + 2));
        } else {
            assert(b.subrange(pos, end) =~= seq![tag] + b.subrange(p, p + 2) + seq![b[p + 2]]);
        }
    }
}

/// The target types of type annotations outside code, as the JVMS numbers
/// them: on a class `0x00` a type parameter, `0x10` the superclass (index
/// `0xFFFF`) or a super interface, `0x11` a type parameter bound; on a field
/// `0x13`; on a method `0x01` a type parameter, `0x12` a type parameter bound,
/// `0x14` the return type, `0x15` the receiver, `0x16` a formal parameter and
/// `0x17` a `throws` type.
pub proof fn lemma_target_types(b: Seq<u8>, pos: int)
    requires
        0 <= pos < b.len(),
    ensures
        b[pos] == 0x00 && pos + 2 <= b.len() ==> read_class_target(b, pos)
            == Ok::<(TargetInfoClass, int), Error>((TargetInfoClass::ClassTypeParameter { index: b[pos + 1] }, pos + 2)),
        b[pos] == 0x10 && pos + 3 <= b.len() && be_u16(b, pos + 1) == 0xFFFF ==> read_class_target(b, pos)
            == Ok::<(TargetInfoClass, int), Error>((TargetInfoClass::Extends, pos + 3)),
        b[pos] == 0x10 && pos + 3 <= b.len() && be_u16(b, pos + 1) != 0xFFFF ==> read_class_target(b, pos)
            == Ok::<(TargetInfoClass, int), Error>((TargetInfoClass::Implements { index: be_u16(b, pos + 1) }, pos + 3)),
        b[pos] == 0x11 && pos + 3 <= b.len() ==> read_class_target(b, pos)
            == Ok::<(TargetInfoClass, int), Error>((TargetInfoClass::ClassTypeParameterBound {
                type_parameter_index: b[pos + 1], bound_index: b[pos + 2] }, pos + 3)),
        b[pos] == 0x13 ==> read_field_target(b, pos) == Ok::<(TargetInfoField, int), Error>((TargetInfoField::Field, pos + 1)),
        b[pos] != 0x13 ==> read_field_target(b, pos) is Err,
        b[pos] == 0x01 && pos + 2 <= b.len() ==> read_method_target(b, pos)
            == Ok::<(TargetInfoMethod, int), Error>((TargetInfoMethod::MethodTypeParameter { index: b[pos + 1] }, pos + 2)),
        b[pos] == 0x12 && pos + 3 <= b.len() ==> read_method_target(b, pos)
            == Ok::<(TargetInfoMethod, int), Error>((TargetInfoMethod::MethodTypeParameterBound {
                type_parameter_index: b[pos + 1], bound_index: b[pos + 2] }, pos + 3)),
        b[pos] == 0x14 ==> read_method_target(b, pos) == Ok::<(TargetInfoMethod, int), Error>((TargetInfoMethod::Return, pos + 1)),
        b[pos] == 0x15 ==> read_method_target(b, pos) == Ok::<(TargetInfoMethod, int), Error>((TargetInfoMethod::Receiver, pos + 1)),
        b[pos] == 0x16 && pos + 2 <= b.len() ==> read_method_target(b, pos)
            == Ok::<(TargetInfoMethod, int), Error>((TargetInfoMethod::FormalParameter { index: b[pos + 1] }, pos + 2)),
        b[pos] == 0x17 && pos + 3 <= b.len() ==> read_method_target(b, pos)
            == Ok::<(TargetInfoMethod, int), Error>((TargetInfoMethod::Throws { index: be_u16(b, pos + 1) }, pos + 3)),
{
}

/// The steps of a type path, as the JVMS numbers them: `0` deeper in an array
/// type, `1` deeper in a nested type, `2` on the bound of a wildcard, `3` on a
/// type argument, whose index is the second byte (the second byte of the
/// other steps must be zero). Writing a step gives the same two bytes.
pub proof fn lemma_type_path_steps(kind: u8, index: u8)
    ensures
        kind == 0 && index == 0 ==> kind_of(kind, index) == Ok::<TypePathKind, Error>(TypePathKind::ArrayDeeper),
        kind == 1 && index == 0 ==> kind_of(kind, index) == Ok::<TypePathKind, Error>(TypePathKind::NestedDeeper),
        kind == 2 && index == 0 ==> kind_of(kind, index) == Ok::<TypePathKind, Error>(TypePathKind::WildcardBound),
        kind == 3 ==> kind_of(kind, index) == Ok::<TypePathKind, Error>(TypePathKind::TypeArgument { index }),
        (kind > 3 || (kind < 3 && index != 0)) ==> kind_of(kind, index) == Err::<TypePathKind, Error>(Error::InvalidTypePath),
        kind_bytes(TypePathKind::ArrayDeeper) == seq![0u8, 0u8],
        kind_bytes(TypePathKind::NestedDeeper) == seq![1u8, 0u8],
        kind_bytes(TypePathKind::WildcardBound) == seq![2u8, 0u8],
        kind_bytes(TypePathKind::TypeArgument { index }) == seq![3u8, index],
{
}

/// The target types of type annotations inside code, as the JVMS numbers
/// them: `0x40` a local variable, `0x41` a resource variable, `0x42` an
/// exception parameter, `0x43` `instanceof`, `0x44` `new`, `0x45` a
/// constructor reference, `0x46` a method reference, `0x47` a cast, `0x48` a
/// type argument of a constructor call, `0x49` of a method call, `0x4A` of a
/// constructor reference, `0x4B` of a method reference.
pub proof fn lemma_code_target_tags(l: Label, i: u8, j: u16, t: Vec<(LabelRange, LvIndex)>)
    ensures
        (TargetInfoCode::LocalVariable { table: t })@.tag == 0x40,
        (TargetInfoCode::ResourceVariable { table: t })@.tag == 0x41,
        (TargetInfoCode::ExceptionParameter { index: j })@.tag == 0x42,
        TargetInfoCode::InstanceOf(l)@.tag == 0x43,
        TargetInfoCode::New(l)@.tag == 0x44,
        TargetInfoCode::ConstructorReference(l)@.tag == 0x45,
        TargetInfoCode::MethodReference(l)@.tag == 0x46,
        (TargetInfoCode::Cast { label: l, index: i })@.tag == 0x47,
        (TargetInfoCode::ConstructorInvocationTypeArgument { label: l, index: i })@.tag == 0x48,
        (TargetInfoCode::MethodInvocationTypeArgument { label: l, index: i })@.tag == 0x49,
        (TargetInfoCode::ConstructorReferenceTypeArgument { label: l, index: i })@.tag == 0x4A,
        (TargetInfoCode::MethodReferenceTypeArgument { label: l, index: i })@.tag == 0x4B,
{
}

} // verus!

