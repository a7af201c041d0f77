//! Data inside the `Code` attribute: labels, local variables, method handles, array types.
use vstd::prelude::*;
use crate::error::Error;
use crate::jstring::JavaString;
use crate::tree::class::ClassName;
use crate::tree::names::{valid_unqualified_name, is_valid_unqualified_name};
use crate::tree::field::{FieldDescriptor, FieldSignature};
use crate::tree::field::{FieldRef, RefModel};
use crate::tree::method::MethodRef;

verus! {

/// Represents a bytecode offset of an opcode using a method-local id.
///
/// The id does not correspond to the bytecode offset in any direct way; when
/// reading or writing, it uniquely identifies a bytecode offset.
#[derive(Debug, Clone, Copy, PartialEq, Eq, Structural, Hash)]
pub struct Label {
    pub id: u16,
}

/// Represents a range of bytecode offsets.
#[derive(Debug, Clone, Copy, PartialEq, Eq, Structural)]
pub struct LabelRange {
    /// The start label, inclusive.
    pub start: Label,
    /// The end label, exclusive.
    pub end: Label,
}

/// Represents an index of a local variable.
#[derive(Debug, Clone, Copy, PartialEq, Eq, Structural)]
pub struct LvIndex {
    pub index: u16,
}

/// Represents the name of a local variable, an unqualified name.
#[derive(Debug, PartialEq, Eq)]
pub struct LocalVariableName(JavaString);

impl View for LocalVariableName {
    type V = Seq<u32>;

    closed spec fn view(&self) -> Seq<u32> {
        self.0@
    }
}

impl LocalVariableName {
    /// Wraps `s` without checking its contents.
    pub fn from_inner_unchecked(s: JavaString) -> (r: LocalVariableName)
        ensures
            r@ == s@,
    {
        LocalVariableName(s)
    }

    /// The underlying string.
    pub fn as_inner(&self) -> (r: &JavaString)
        ensures
            r@ == self@,
    {
        &self.0
    }

    /// Unwraps the underlying string.
    pub fn into_inner(self) -> (r: JavaString)
        ensures
            r@ == self@,
    {
        self.0
    }

    /// A copy of this value.
    pub fn duplicate(&self) -> (r: LocalVariableName)
        ensures
            r@ == self@,
    {
        LocalVariableName(self.0.duplicate())
    }

    /// Whether `inner` is valid for this type.
    pub fn is_valid(inner: &JavaString) -> (r: bool)
        ensures
            r == valid_unqualified_name(inner@),
    {
        is_valid_unqualified_name(inner)
    }

    /// Wraps `s`, failing with [`Error::InvalidName`] if it is not valid for this type.
    pub fn try_from(s: JavaString) -> (r: Result<LocalVariableName, Error>)
        ensures
            r is Ok <==> valid_unqualified_name(s@),
            r matches Ok(v) ==> v@ == s@,
            r is Err ==> r == Err::<LocalVariableName, Error>(Error::InvalidName),
    {
        if is_valid_unqualified_name(&s) {
            Ok(LocalVariableName(s))
        } else {
            Err(Error::InvalidName)
        }
    }
}

/// An entry of the local variable table: where the variable is, its name, its
/// descriptor and signature, and its index.
#[derive(Debug, PartialEq, Eq)]
pub struct Lv {
    pub range: LabelRange,
    pub name: LocalVariableName,
    pub descriptor: Option<FieldDescriptor>,
    pub signature: Option<FieldSignature>,
    pub index: LvIndex,
}

/// An entry of the exception table.
#[derive(Debug)]
pub struct Exception {
    pub start: Label,
    pub end: Label,
    pub handler: Label,
    pub catch: Option<ClassName>,
}

/// The model of an [`Lv`]: its range, its name, its descriptor and signature
/// (each `None` where absent) and its index.
pub ghost struct LvModel {
    pub range: LabelRange,
    pub name: Seq<u32>,
    pub descriptor: Option<Seq<u32>>,
    pub signature: Option<Seq<u32>>,
    pub index: LvIndex,
}

impl View for Lv {
    type V = LvModel;

    open spec fn view(&self) -> LvModel {
        LvModel {
            range: self.range,
            name: self.name@,
            descriptor: match &self.descriptor {
                Some(d) => Some(d@),
                None => None,
            },
            signature: match &self.signature {
                Some(s) => Some(s@),
                None => None,
            },
            index: self.index,
        }
    }
}

/// The model of an [`Exception`]: its labels and the class name it catches.
pub ghost struct ExceptionModel {
    pub start: Label,
    pub end: Label,
    pub handler: Label,
    pub catch: Option<Seq<u32>>,
}

impl View for Exception {
    type V = ExceptionModel;

    open spec fn view(&self) -> ExceptionModel {
        ExceptionModel {
            start: self.start,
            end: self.end,
            handler: self.handler,
            catch: match &self.catch {
                Some(c) => Some(c@),
                None => None,
            },
        }
    }
}

/// A method handle, as stored in a `MethodHandle` constant pool entry.
#[derive(Debug, PartialEq, Eq)]
pub enum Handle {
    GetField(FieldRef),
    GetStatic(FieldRef),
    PutField(FieldRef),
    PutStatic(FieldRef),
    InvokeVirtual(MethodRef),
    /// The bool is `true` iff the method is on an interface.
    InvokeStatic(MethodRef, bool),
    /// The bool is `true` iff the method is on an interface.
    InvokeSpecial(MethodRef, bool),
    NewInvokeSpecial(MethodRef),
    InvokeInterface(MethodRef),
}

/// The model of a [`Handle`].
pub ghost enum HandleModel {
    GetField(RefModel),
    GetStatic(RefModel),
    PutField(RefModel),
    PutStatic(RefModel),
    InvokeVirtual(RefModel),
    InvokeStatic(RefModel, bool),
    InvokeSpecial(RefModel, bool),
    NewInvokeSpecial(RefModel),
    InvokeInterface(RefModel),
}

impl View for Handle {
    type V = HandleModel;

    open spec fn view(&self) -> HandleModel {
        match self {
            Handle::GetField(f) => HandleModel::GetField(f@),
            Handle::GetStatic(f) => HandleModel::GetStatic(f@),
            Handle::PutField(f) => HandleModel::PutField(f@),
            Handle::PutStatic(f) => HandleModel::PutStatic(f@),
            Handle::InvokeVirtual(m) => HandleModel::InvokeVirtual(m@),
            Handle::InvokeStatic(m, i) => HandleModel::InvokeStatic(m@, *i),
            Handle::InvokeSpecial(m, i) => HandleModel::InvokeSpecial(m@, *i),
            Handle::NewInvokeSpecial(m) => HandleModel::NewInvokeSpecial(m@),
            Handle::InvokeInterface(m) => HandleModel::InvokeInterface(m@),
        }
    }
}

impl Handle {
    /// A copy of this handle.
    pub fn duplicate(&self) -> (r: Handle)
        ensures
            r@ == self@,
    {
        match self {
            Handle::GetField(f) => Handle::GetField(f.duplicate()),
            Handle::GetStatic(f) => Handle::GetStatic(f.duplicate()),
            Handle::PutField(f) => Handle::PutField(f.duplicate()),
            Handle::PutStatic(f) => Handle::PutStatic(f.duplicate()),
            Handle::InvokeVirtual(m) => Handle::InvokeVirtual(m.duplicate()),
            Handle::InvokeStatic(m, i) => Handle::InvokeStatic(m.duplicate(), *i),
            Handle::InvokeSpecial(m, i) => Handle::InvokeSpecial(m.duplicate(), *i),
            Handle::NewInvokeSpecial(m) => Handle::NewInvokeSpecial(m.duplicate()),
            Handle::InvokeInterface(m) => Handle::InvokeInterface(m.duplicate()),
        }
    }
}

/// The element type of a `newarray` instruction.
#[derive(Debug, Clone, Copy, PartialEq, Eq, Structural)]
pub enum ArrayType {
    Boolean,
    Char,
    Float,
    Double,
    Byte,
    Short,
    Int,
    Long,
}

/// The `atype` operand for each array type.
pub open spec fn atype_of(t: ArrayType) -> u8 {
    match t {
        ArrayType::Boolean => 4,
        ArrayType::Char => 5,
        ArrayType::Float => 6,
        ArrayType::Double => 7,
        ArrayType::Byte => 8,
        ArrayType::Short => 9,
        ArrayType::Int => 10,
        ArrayType::Long => 11,
    }
}

impl ArrayType {
    /// The array type of an `atype` operand; fails with [`Error::UnknownTag`] for
    /// values outside `4..=11`.
    pub fn from_atype(atype: u8) -> (r: Result<ArrayType, Error>)
        ensures
            4 <= atype <= 11 ==> (r matches Ok(t) && atype_of(t) == atype),
            !(4 <= atype <= 11) ==> r == Err::<ArrayType, Error>(Error::UnknownTag),
    {
        match atype {
            4 => Ok(ArrayType::Boolean),
            5 => Ok(ArrayType::Char),
            6 => Ok(ArrayType::Float),
            7 => Ok(ArrayType::Double),
            8 => Ok(ArrayType::Byte),
            9 => Ok(ArrayType::Short),
            10 => Ok(ArrayType::Int),
            11 => Ok(ArrayType::Long),
            _ => Err(Error::UnknownTag),
        }
    }

    /// The `atype` operand of this array type.
    pub fn to_atype(self) -> (r: u8)
        ensures
            r == atype_of(self),
    {
        match self {
            ArrayType::Boolean => 4,
            ArrayType::Char => 5,
            ArrayType::Float => 6,
            ArrayType::Double => 7,
            ArrayType::Byte => 8,
            ArrayType::Short => 9,
            ArrayType::Int => 10,
            ArrayType::Long => 11,
        }
    }
}

/// Converting an array type to its `atype` and back gives it back.
pub proof fn lemma_atype_round_trip(t: ArrayType)
    ensures
        4 <= atype_of(t) <= 11,
        forall|u: ArrayType| atype_of(u) == atype_of(t) ==> u == t,
{
}

} // verus!
