//! Field names, descriptors and references.
use vstd::prelude::*;
use crate::error::Error;
use crate::jstring::JavaString;
use crate::tree::class::ObjClassName;
use crate::tree::names::{valid_unqualified_name, is_valid_unqualified_name};

verus! {

/// Represents a field name, an unqualified name.
#[derive(Debug, PartialEq, Eq)]
pub struct FieldName(JavaString);

impl View for FieldName {
    type V = Seq<u32>;

    closed spec fn view(&self) -> Seq<u32> {
        self.0@
    }
}

impl FieldName {
    /// Wraps `s` without checking its contents.
    pub fn from_inner_unchecked(s: JavaString) -> (r: FieldName)
        ensures
            r@ == s@,
    {
        FieldName(s)
    }

    /// The underlying string.
    pub fn as_inner(&self) -> (r: &JavaString)
        ensures
            r@ == self@,
    {
        &self.0
    }

    /// Unwraps the underlying string.
    pub fn into_inner(self) -> (r: JavaString)
        ensures
            r@ == self@,
    {
        self.0
    }

    /// A copy of this value.
    pub fn duplicate(&self) -> (r: FieldName)
        ensures
            r@ == self@,
    {
        FieldName(self.0.duplicate())
    }

    /// Whether `inner` is valid for this type.
    pub fn is_valid(inner: &JavaString) -> (r: bool)
        ensures
            r == valid_unqualified_name(inner@),
    {
        is_valid_unqualified_name(inner)
    }

    /// Wraps `s`, failing with [`Error::InvalidName`] if it is not valid for this type.
    pub fn try_from(s: JavaString) -> (r: Result<FieldName, Error>)
        ensures
            r is Ok <==> valid_unqualified_name(s@),
            r matches Ok(v) ==> v@ == s@,
            r is Err ==> r == Err::<FieldName, Error>(Error::InvalidName),
    {
        if is_valid_unqualified_name(&s) {
            Ok(FieldName(s))
        } else {
            Err(Error::InvalidName)
        }
    }
}

/// A field descriptor, such as `I` or `[Ljava/lang/Object;`.
#[derive(Debug, PartialEq, Eq)]
pub struct FieldDescriptor(JavaString);

impl View for FieldDescriptor {
    type V = Seq<u32>;

    closed spec fn view(&self) -> Seq<u32> {
        self.0@
    }
}

impl FieldDescriptor {
    /// Wraps `s` without checking its contents.
    pub fn from_inner_unchecked(s: JavaString) -> (r: FieldDescriptor)
        ensures
            r@ == s@,
    {
        FieldDescriptor(s)
    }

    /// The underlying string.
    pub fn as_inner(&self) -> (r: &JavaString)
        ensures
            r@ == self@,
    {
        &self.0
    }

    /// Unwraps the underlying string.
    pub fn into_inner(self) -> (r: JavaString)
        ensures
            r@ == self@,
    {
        self.0
    }

    /// A copy of this value.
    pub fn duplicate(&self) -> (r: FieldDescriptor)
        ensures
            r@ == self@,
    {
        FieldDescriptor(self.0.duplicate())
    }

}

/// Represents a field signature with generic type information.
#[derive(Debug, PartialEq, Eq)]
pub struct FieldSignature(JavaString);

impl View for FieldSignature {
    type V = Seq<u32>;

    closed spec fn view(&self) -> Seq<u32> {
        self.0@
    }
}

impl FieldSignature {
    /// Wraps `s` without checking its contents.
    pub fn from_inner_unchecked(s: JavaString) -> (r: FieldSignature)
        ensures
            r@ == s@,
    {
        FieldSignature(s)
    }

    /// The underlying string.
    pub fn as_inner(&self) -> (r: &JavaString)
        ensures
            r@ == self@,
    {
        &self.0
    }

    /// Unwraps the underlying string.
    pub fn into_inner(self) -> (r: JavaString)
        ensures
            r@ == self@,
    {
        self.0
    }

    /// A copy of this value.
    pub fn duplicate(&self) -> (r: FieldSignature)
        ensures
            r@ == self@,
    {
        FieldSignature(self.0.duplicate())
    }

}


/// The model of a field or method reference: class name, name and descriptor.
pub ghost struct RefModel {
    pub class: Seq<u32>,
    pub name: Seq<u32>,
    pub desc: Seq<u32>,
}

impl View for FieldRef {
    type V = RefModel;

    open spec fn view(&self) -> RefModel {
        RefModel { class: self.class@, name: self.name@, desc: self.desc@ }
    }
}

/// A reference to a field of a class.
#[derive(Debug, PartialEq, Eq)]
pub struct FieldRef {
    pub class: ObjClassName,
    pub name: FieldName,
    pub desc: FieldDescriptor,
}

impl FieldRef {
    /// A copy of this reference.
    pub fn duplicate(&self) -> (r: FieldRef)
        ensures
            r@ == self@,
    {
        FieldRef { class: self.class.duplicate(), name: self.name.duplicate(), desc: self.desc.duplicate() }
    }
}

/// The name and descriptor of a field.
#[derive(Debug, PartialEq, Eq)]
pub struct FieldNameAndDesc {
    pub name: FieldName,
    pub desc: FieldDescriptor,
}

impl FieldNameAndDesc {
    /// Adds an [`ObjClassName`] to this [`FieldNameAndDesc`] to make a [`FieldRef`].
    pub fn with_class(self, class: ObjClassName) -> (r: FieldRef)
        ensures
            r.class@ == class@,
            r.name@ == self.name@,
            r.desc@ == self.desc@,
    {
        FieldRef { class, name: self.name, desc: self.desc }
    }
}

/// Represents the access flags a field can have.
#[derive(Debug, Clone, Copy, Default, PartialEq, Eq, Structural)]
pub struct FieldAccess {
    pub is_public: bool,
    pub is_private: bool,
    pub is_protected: bool,
    pub is_static: bool,
    pub is_final: bool,
    pub is_volatile: bool,
    pub is_transient: bool,
    pub is_synthetic: bool,
    pub is_enum: bool,
}

/// Interprets an `u16` as FieldAccess flags; other bits are ignored.
pub open spec fn field_access_of(value: u16) -> FieldAccess {
    FieldAccess {
        is_public: value & 0x0001 != 0,
        is_private: value & 0x0002 != 0,
        is_protected: value & 0x0004 != 0,
        is_static: value & 0x0008 != 0,
        is_final: value & 0x0010 != 0,
        is_volatile: value & 0x0040 != 0,
        is_transient: value & 0x0080 != 0,
        is_synthetic: value & 0x1000 != 0,
        is_enum: value & 0x4000 != 0,
    }
}

/// The `u16` for the given FieldAccess flags.
pub open spec fn field_access_bits(a: FieldAccess) -> u16 {
    (if a.is_public { 0x0001u16 } else { 0 }) | (if a.is_private { 0x0002u16 } else { 0 }) | (if a.is_protected { 0x0004u16 } else { 0 }) | (if a.is_static { 0x0008u16 } else { 0 }) | (if a.is_final { 0x0010u16 } else { 0 }) | (if a.is_volatile { 0x0040u16 } else { 0 }) | (if a.is_transient { 0x0080u16 } else { 0 }) | (if a.is_synthetic { 0x1000u16 } else { 0 }) | (if a.is_enum { 0x4000u16 } else { 0 })
}

impl From<u16> for FieldAccess {
    fn from(value: u16) -> (r: FieldAccess) {
        FieldAccess {
            is_public: value & 0x0001 != 0,
            is_private: value & 0x0002 != 0,
            is_protected: value & 0x0004 != 0,
            is_static: value & 0x0008 != 0,
            is_final: value & 0x0010 != 0,
            is_volatile: value & 0x0040 != 0,
            is_transient: value & 0x0080 != 0,
            is_synthetic: value & 0x1000 != 0,
            is_enum: value & 0x4000 != 0,
        }
    }
}

impl vstd::std_specs::convert::FromSpecImpl<u16> for FieldAccess {
    open spec fn obeys_from_spec() -> bool {
        true
    }

    open spec fn from_spec(v: u16) -> FieldAccess {
        field_access_of(v)
    }
}

impl From<FieldAccess> for u16 {
    fn from(value: FieldAccess) -> (r: u16) {
        (if value.is_public { 0x0001u16 } else { 0 }) | (if value.is_private { 0x0002u16 } else { 0 }) | (if value.is_protected { 0x0004u16 } else { 0 }) | (if value.is_static { 0x0008u16 } else { 0 }) | (if value.is_final { 0x0010u16 } else { 0 }) | (if value.is_volatile { 0x0040u16 } else { 0 }) | (if value.is_transient { 0x0080u16 } else { 0 }) | (if value.is_synthetic { 0x1000u16 } else { 0 }) | (if value.is_enum { 0x4000u16 } else { 0 })
    }
}

impl vstd::std_specs::convert::FromSpecImpl<FieldAccess> for u16 {
    open spec fn obeys_from_spec() -> bool {
        true
    }

    open spec fn from_spec(v: FieldAccess) -> u16 {
        field_access_bits(v)
    }
}

/// Writing FieldAccess flags to an `u16` and reading them back gives them back.
pub proof fn lemma_field_access_round_trip(a: FieldAccess)
    ensures
        field_access_of(field_access_bits(a)) == a,
{
    let (x0, x1, x2, x3, x4, x5, x6, x7, x8) = (a.is_public, a.is_private, a.is_protected, a.is_static, a.is_final, a.is_volatile, a.is_transient, a.is_synthetic, a.is_enum);
    assert({
        let v = (if x0 { 0x0001u16 } else { 0 }) | (if x1 { 0x0002u16 } else { 0 }) | (if x2 { 0x0004u16 } else { 0 }) | (if x3 { 0x0008u16 } else { 0 }) | (if x4 { 0x0010u16 } else { 0 }) | (if x5 { 0x0040u16 } else { 0 }) | (if x6 { 0x0080u16 } else { 0 }) | (if x7 { 0x1000u16 } else { 0 }) | (if x8 { 0x4000u16 } else { 0 });
        &&& (v & 0x0001 != 0) == x0
        &&& (v & 0x0002 != 0) == x1
        &&& (v & 0x0004 != 0) == x2
        &&& (v & 0x0008 != 0) == x3
        &&& (v & 0x0010 != 0) == x4
        &&& (v & 0x0040 != 0) == x5
        &&& (v & 0x0080 != 0) == x6
        &&& (v & 0x1000 != 0) == x7
        &&& (v & 0x4000 != 0) == x8
    }) by (bit_vector);
}

/// Each of the field access flags stands for one bit of the `access_flags` item of a field, in reading and
/// in writing: `0x0001` for `is_public` (ACC_PUBLIC), `0x0002` for `is_private` (ACC_PRIVATE), `0x0004` for `is_protected` (ACC_PROTECTED), `0x0008` for `is_static` (ACC_STATIC), `0x0010` for `is_final` (ACC_FINAL), `0x0040` for `is_volatile` (ACC_VOLATILE), `0x0080` for `is_transient` (ACC_TRANSIENT), `0x1000` for `is_synthetic` (ACC_SYNTHETIC), `0x4000` for `is_enum` (ACC_ENUM).
pub proof fn lemma_field_access_bits(v: u16, a: FieldAccess)
    ensures
        field_access_of(v).is_public == (v & 0x0001 != 0),
        field_access_of(v).is_private == (v & 0x0002 != 0),
        field_access_of(v).is_protected == (v & 0x0004 != 0),
        field_access_of(v).is_static == (v & 0x0008 != 0),
        field_access_of(v).is_final == (v & 0x0010 != 0),
        field_access_of(v).is_volatile == (v & 0x0040 != 0),
        field_access_of(v).is_transient == (v & 0x0080 != 0),
        field_access_of(v).is_synthetic == (v & 0x1000 != 0),
        field_access_of(v).is_enum == (v & 0x4000 != 0),
        (field_access_bits(a) & 0x0001 != 0) == a.is_public,
        (field_access_bits(a) & 0x0002 != 0) == a.is_private,
        (field_access_bits(a) & 0x0004 != 0) == a.is_protected,
        (field_access_bits(a) & 0x0008 != 0) == a.is_static,
        (field_access_bits(a) & 0x0010 != 0) == a.is_final,
        (field_access_bits(a) & 0x0040 != 0) == a.is_volatile,
        (field_access_bits(a) & 0x0080 != 0) == a.is_transient,
        (field_access_bits(a) & 0x1000 != 0) == a.is_synthetic,
        (field_access_bits(a) & 0x4000 != 0) == a.is_enum,
{
    lemma_field_access_round_trip(a);
}


} // verus!
