//! Method names, descriptors and references.
use vstd::prelude::*;
use crate::error::Error;
use crate::jstring::{JavaString, code_points_of};
use crate::tree::class::{ClassName, ObjClassName};
use crate::tree::field::RefModel;
use crate::tree::names::{valid_unqualified_name, is_valid_unqualified_name, valid_method_name, is_valid_method_name};

verus! {

/// Represents a method name.
#[derive(Debug, PartialEq, Eq)]
pub struct MethodName(JavaString);

impl View for MethodName {
    type V = Seq<u32>;

    closed spec fn view(&self) -> Seq<u32> {
        self.0@
    }
}

impl MethodName {
    /// Wraps `s` without checking its contents.
    pub fn from_inner_unchecked(s: JavaString) -> (r: MethodName)
        ensures
            r@ == s@,
    {
        MethodName(s)
    }

    /// The underlying string.
    pub fn as_inner(&self) -> (r: &JavaString)
        ensures
            r@ == self@,
    {
        &self.0
    }

    /// Unwraps the underlying string.
    pub fn into_inner(self) -> (r: JavaString)
        ensures
            r@ == self@,
    {
        self.0
    }

    /// A copy of this value.
    pub fn duplicate(&self) -> (r: MethodName)
        ensures
            r@ == self@,
    {
        MethodName(self.0.duplicate())
    }

    /// Whether `inner` is valid for this type.
    pub fn is_valid(inner: &JavaString) -> (r: bool)
        ensures
            r == valid_method_name(inner@),
    {
        is_valid_method_name(inner)
    }

    /// Wraps `s`, failing with [`Error::InvalidName`] if it is not valid for this type.
    pub fn try_from(s: JavaString) -> (r: Result<MethodName, Error>)
        ensures
            r is Ok <==> valid_method_name(s@),
            r matches Ok(v) ==> v@ == s@,
            r is Err ==> r == Err::<MethodName, Error>(Error::InvalidName),
    {
        if is_valid_method_name(&s) {
            Ok(MethodName(s))
        } else {
            Err(Error::InvalidName)
        }
    }
}

/// A method descriptor, such as `(ID)V`.
#[derive(Debug, PartialEq, Eq)]
pub struct MethodDescriptor(JavaString);

impl View for MethodDescriptor {
    type V = Seq<u32>;

    closed spec fn view(&self) -> Seq<u32> {
        self.0@
    }
}

impl MethodDescriptor {
    /// Wraps `s` without checking its contents.
    pub fn from_inner_unchecked(s: JavaString) -> (r: MethodDescriptor)
        ensures
            r@ == s@,
    {
        MethodDescriptor(s)
    }

    /// The underlying string.
    pub fn as_inner(&self) -> (r: &JavaString)
        ensures
            r@ == self@,
    {
        &self.0
    }

    /// Unwraps the underlying string.
    pub fn into_inner(self) -> (r: JavaString)
        ensures
            r@ == self@,
    {
        self.0
    }

    /// A copy of this value.
    pub fn duplicate(&self) -> (r: MethodDescriptor)
        ensures
            r@ == self@,
    {
        MethodDescriptor(self.0.duplicate())
    }

}

/// Represents a method signature with generic type information.
#[derive(Debug, PartialEq, Eq)]
pub struct MethodSignature(JavaString);

impl View for MethodSignature {
    type V = Seq<u32>;

    closed spec fn view(&self) -> Seq<u32> {
        self.0@
    }
}

impl MethodSignature {
    /// Wraps `s` without checking its contents.
    pub fn from_inner_unchecked(s: JavaString) -> (r: MethodSignature)
        ensures
            r@ == s@,
    {
        MethodSignature(s)
    }

    /// The underlying string.
    pub fn as_inner(&self) -> (r: &JavaString)
        ensures
            r@ == self@,
    {
        &self.0
    }

    /// Unwraps the underlying string.
    pub fn into_inner(self) -> (r: JavaString)
        ensures
            r@ == self@,
    {
        self.0
    }

    /// A copy of this value.
    pub fn duplicate(&self) -> (r: MethodSignature)
        ensures
            r@ == self@,
    {
        MethodSignature(self.0.duplicate())
    }

}

/// Represents the name of a formal parameter, an unqualified name.
#[derive(Debug, PartialEq, Eq)]
pub struct ParameterName(JavaString);

impl View for ParameterName {
    type V = Seq<u32>;

    closed spec fn view(&self) -> Seq<u32> {
        self.0@
    }
}

impl ParameterName {
    /// Wraps `s` without checking its contents.
    pub fn from_inner_unchecked(s: JavaString) -> (r: ParameterName)
        ensures
            r@ == s@,
    {
        ParameterName(s)
    }

    /// The underlying string.
    pub fn as_inner(&self) -> (r: &JavaString)
        ensures
            r@ == self@,
    {
        &self.0
    }

    /// Unwraps the underlying string.
    pub fn into_inner(self) -> (r: JavaString)
        ensures
            r@ == self@,
    {
        self.0
    }

    /// A copy of this value.
    pub fn duplicate(&self) -> (r: ParameterName)
        ensures
            r@ == self@,
    {
        ParameterName(self.0.duplicate())
    }

    /// Whether `inner` is valid for this type.
    pub fn is_valid(inner: &JavaString) -> (r: bool)
        ensures
            r == valid_unqualified_name(inner@),
    {
        is_valid_unqualified_name(inner)
    }

    /// Wraps `s`, failing with [`Error::InvalidName`] if it is not valid for this type.
    pub fn try_from(s: JavaString) -> (r: Result<ParameterName, Error>)
        ensures
            r is Ok <==> valid_unqualified_name(s@),
            r matches Ok(v) ==> v@ == s@,
            r is Err ==> r == Err::<ParameterName, Error>(Error::InvalidName),
    {
        if is_valid_unqualified_name(&s) {
            Ok(ParameterName(s))
        } else {
            Err(Error::InvalidName)
        }
    }
}


impl MethodName {
    /// The name of instance initialization methods, `<init>`.
    #[allow(non_snake_case)]
    pub fn INIT() -> (r: MethodName)
        ensures
            r@ == code_points_of("<init>"@),
    {
        MethodName(JavaString::from_str("<init>"))
    }

    /// The name of class initialization methods, `<clinit>`.
    #[allow(non_snake_case)]
    pub fn CLINIT() -> (r: MethodName)
        ensures
            r@ == code_points_of("<clinit>"@),
    {
        MethodName(JavaString::from_str("<clinit>"))
    }
}

/// A method reference. Can also reference methods of array classes, such as `clone`.
#[derive(Debug, PartialEq, Eq)]
pub struct MethodRef {
    pub class: ClassName,
    pub name: MethodName,
    pub desc: MethodDescriptor,
}

impl View for MethodRef {
    type V = RefModel;

    open spec fn view(&self) -> RefModel {
        RefModel { class: self.class@, name: self.name@, desc: self.desc@ }
    }
}

impl MethodRef {
    /// A copy of this reference.
    pub fn duplicate(&self) -> (r: MethodRef)
        ensures
            r@ == self@,
    {
        MethodRef { class: self.class.duplicate(), name: self.name.duplicate(), desc: self.desc.duplicate() }
    }
}

/// A [`MethodRef`] that can only reference object classes.
#[derive(Debug, PartialEq, Eq)]
pub struct MethodRefObj {
    pub class: ObjClassName,
    pub name: MethodName,
    pub desc: MethodDescriptor,
}

/// The name and descriptor of a method.
#[derive(Debug, PartialEq, Eq)]
pub struct MethodNameAndDesc {
    pub name: MethodName,
    pub desc: MethodDescriptor,
}

impl MethodNameAndDesc {
    /// Adds a [`ClassName`] to make a [`MethodRef`].
    pub fn with_class(self, class: ClassName) -> (r: MethodRef)
        ensures
            r.class@ == class@,
            r.name@ == self.name@,
            r.desc@ == self.desc@,
    {
        MethodRef { class, name: self.name, desc: self.desc }
    }

    /// Adds an [`ObjClassName`] to make a [`MethodRefObj`].
    pub fn with_class_obj(self, class: ObjClassName) -> (r: MethodRefObj)
        ensures
            r.class@ == class@,
            r.name@ == self.name@,
            r.desc@ == self.desc@,
    {
        MethodRefObj { class, name: self.name, desc: self.desc }
    }
}

/// A formal parameter of a method, from the `MethodParameters` attribute.
#[derive(Debug, PartialEq, Eq)]
pub struct MethodParameter {
    pub name: Option<ParameterName>,
    pub flags: ParameterFlags,
}

/// Represents the access flags a method can have.
#[derive(Debug, Clone, Copy, Default, PartialEq, Eq, Structural)]
pub struct MethodAccess {
    pub is_public: bool,
    pub is_private: bool,
    pub is_protected: bool,
    pub is_static: bool,
    pub is_final: bool,
    pub is_synchronized: bool,
    pub is_bridge: bool,
    pub is_varargs: bool,
    pub is_native: bool,
    pub is_abstract: bool,
    pub is_strict: bool,
    pub is_synthetic: bool,
}

/// Interprets an `u16` as MethodAccess flags; other bits are ignored.
pub open spec fn method_access_of(value: u16) -> MethodAccess {
    MethodAccess {
        is_public: value & 0x0001 != 0,
        is_private: value & 0x0002 != 0,
        is_protected: value & 0x0004 != 0,
        is_static: value & 0x0008 != 0,
        is_final: value & 0x0010 != 0,
        is_synchronized: value & 0x0020 != 0,
        is_bridge: value & 0x0040 != 0,
        is_varargs: value & 0x0080 != 0,
        is_native: value & 0x0100 != 0,
        is_abstract: value & 0x0400 != 0,
        is_strict: value & 0x0800 != 0,
        is_synthetic: value & 0x1000 != 0,
    }
}

/// The `u16` for the given MethodAccess flags.
pub open spec fn method_access_bits(a: MethodAccess) -> u16 {
    (if a.is_public { 0x0001u16 } else { 0 }) | (if a.is_private { 0x0002u16 } else { 0 }) | (if a.is_protected { 0x0004u16 } else { 0 }) | (if a.is_static { 0x0008u16 } else { 0 }) | (if a.is_final { 0x0010u16 } else { 0 }) | (if a.is_synchronized { 0x0020u16 } else { 0 }) | (if a.is_bridge { 0x0040u16 } else { 0 }) | (if a.is_varargs { 0x0080u16 } else { 0 }) | (if a.is_native { 0x0100u16 } else { 0 }) | (if a.is_abstract { 0x0400u16 } else { 0 }) | (if a.is_strict { 0x0800u16 } else { 0 }) | (if a.is_synthetic { 0x1000u16 } else { 0 })
}

impl From<u16> for MethodAccess {
    fn from(value: u16) -> (r: MethodAccess) {
        MethodAccess {
            is_public: value & 0x0001 != 0,
            is_private: value & 0x0002 != 0,
            is_protected: value & 0x0004 != 0,
            is_static: value & 0x0008 != 0,
            is_final: value & 0x0010 != 0,
            is_synchronized: value & 0x0020 != 0,
            is_bridge: value & 0x0040 != 0,
            is_varargs: value & 0x0080 != 0,
            is_native: value & 0x0100 != 0,
            is_abstract: value & 0x0400 != 0,
            is_strict: value & 0x0800 != 0,
            is_synthetic: value & 0x1000 != 0,
        }
    }
}

impl vstd::std_specs::convert::FromSpecImpl<u16> for MethodAccess {
    open spec fn obeys_from_spec() -> bool {
        true
    }

    open spec fn from_spec(v: u16) -> MethodAccess {
        method_access_of(v)
    }
}

impl From<MethodAccess> for u16 {
    fn from(value: MethodAccess) -> (r: u16) {
        (if value.is_public { 0x0001u16 } else { 0 }) | (if value.is_private { 0x0002u16 } else { 0 }) | (if value.is_protected { 0x0004u16 } else { 0 }) | (if value.is_static { 0x0008u16 } else { 0 }) | (if value.is_final { 0x0010u16 } else { 0 }) | (if value.is_synchronized { 0x0020u16 } else { 0 }) | (if value.is_bridge { 0x0040u16 } else { 0 }) | (if value.is_varargs { 0x0080u16 } else { 0 }) | (if value.is_native { 0x0100u16 } else { 0 }) | (if value.is_abstract { 0x0400u16 } else { 0 }) | (if value.is_strict { 0x0800u16 } else { 0 }) | (if value.is_synthetic { 0x1000u16 } else { 0 })
    }
}

impl vstd::std_specs::convert::FromSpecImpl<MethodAccess> for u16 {
    open spec fn obeys_from_spec() -> bool {
        true
    }

    open spec fn from_spec(v: MethodAccess) -> u16 {
        method_access_bits(v)
    }
}

/// Writing MethodAccess flags to an `u16` and reading them back gives them back.
pub proof fn lemma_method_access_round_trip(a: MethodAccess)
    ensures
        method_access_of(method_access_bits(a)) == a,
{
    let (x0, x1, x2, x3, x4, x5, x6, x7, x8, x9, x10, x11) = (a.is_public, a.is_private, a.is_protected, a.is_static, a.is_final, a.is_synchronized, a.is_bridge, a.is_varargs, a.is_native, a.is_abstract, a.is_strict, a.is_synthetic);
    assert({
        let v = (if x0 { 0x0001u16 } else { 0 }) | (if x1 { 0x0002u16 } else { 0 }) | (if x2 { 0x0004u16 } else { 0 }) | (if x3 { 0x0008u16 } else { 0 }) | (if x4 { 0x0010u16 } else { 0 }) | (if x5 { 0x0020u16 } else { 0 }) | (if x6 { 0x0040u16 } else { 0 }) | (if x7 { 0x0080u16 } else { 0 }) | (if x8 { 0x0100u16 } else { 0 }) | (if x9 { 0x0400u16 } else { 0 }) | (if x10 { 0x0800u16 } else { 0 }) | (if x11 { 0x1000u16 } else { 0 });
        &&& (v & 0x0001 != 0) == x0
        &&& (v & 0x0002 != 0) == x1
        &&& (v & 0x0004 != 0) == x2
        &&& (v & 0x0008 != 0) == x3
        &&& (v & 0x0010 != 0) == x4
        &&& (v & 0x0020 != 0) == x5
        &&& (v & 0x0040 != 0) == x6
        &&& (v & 0x0080 != 0) == x7
        &&& (v & 0x0100 != 0) == x8
        &&& (v & 0x0400 != 0) == x9
        &&& (v & 0x0800 != 0) == x10
        &&& (v & 0x1000 != 0) == x11
    }) by (bit_vector);
}

/// Each of the method access flags stands for one bit of the `access_flags` item of a method, in reading and
/// in writing: `0x0001` for `is_public` (ACC_PUBLIC), `0x0002` for `is_private` (ACC_PRIVATE), `0x0004` for `is_protected` (ACC_PROTECTED), `0x0008` for `is_static` (ACC_STATIC), `0x0010` for `is_final` (ACC_FINAL), `0x0020` for `is_synchronized` (ACC_SYNCHRONIZED), `0x0040` for `is_bridge` (ACC_BRIDGE), `0x0080` for `is_varargs` (ACC_VARARGS), `0x0100` for `is_native` (ACC_NATIVE), `0x0400` for `is_abstract` (ACC_ABSTRACT), `0x0800` for `is_strict` (ACC_STRICT), `0x1000` for `is_synthetic` (ACC_SYNTHETIC).
pub proof fn lemma_method_access_bits(v: u16, a: MethodAccess)
    ensures
        method_access_of(v).is_public == (v & 0x0001 != 0),
        method_access_of(v).is_private == (v & 0x0002 != 0),
        method_access_of(v).is_protected == (v & 0x0004 != 0),
        method_access_of(v).is_static == (v & 0x0008 != 0),
        method_access_of(v).is_final == (v & 0x0010 != 0),
        method_access_of(v).is_synchronized == (v & 0x0020 != 0),
        method_access_of(v).is_bridge == (v & 0x0040 != 0),
        method_access_of(v).is_varargs == (v & 0x0080 != 0),
        method_access_of(v).is_native == (v & 0x0100 != 0),
        method_access_of(v).is_abstract == (v & 0x0400 != 0),
        method_access_of(v).is_strict == (v & 0x0800 != 0),
        method_access_of(v).is_synthetic == (v & 0x1000 != 0),
        (method_access_bits(a) & 0x0001 != 0) == a.is_public,
        (method_access_bits(a) & 0x0002 != 0) == a.is_private,
        (method_access_bits(a) & 0x0004 != 0) == a.is_protected,
        (method_access_bits(a) & 0x0008 != 0) == a.is_static,
        (method_access_bits(a) & 0x0010 != 0) == a.is_final,
        (method_access_bits(a) & 0x0020 != 0) == a.is_synchronized,
        (method_access_bits(a) & 0x0040 != 0) == a.is_bridge,
        (method_access_bits(a) & 0x0080 != 0) == a.is_varargs,
        (method_access_bits(a) & 0x0100 != 0) == a.is_native,
        (method_access_bits(a) & 0x0400 != 0) == a.is_abstract,
        (method_access_bits(a) & 0x0800 != 0) == a.is_strict,
        (method_access_bits(a) & 0x1000 != 0) == a.is_synthetic,
{
    lemma_method_access_round_trip(a);
}


/// Represents the flags of a method parameter.
#[derive(Debug, Clone, Copy, Default, PartialEq, Eq, Structural)]
pub struct ParameterFlags {
    pub is_final: bool,
    pub is_synthetic: bool,
    pub is_mandated: bool,
}

/// Interprets an `u16` as ParameterFlags flags; other bits are ignored.
pub open spec fn parameter_flags_of(value: u16) -> ParameterFlags {
    ParameterFlags {
        is_final: value & 0x0010 != 0,
        is_synthetic: value & 0x1000 != 0,
        is_mandated: value & 0x8000 != 0,
    }
}

/// The `u16` for the given ParameterFlags flags.
pub open spec fn parameter_flags_bits(a: ParameterFlags) -> u16 {
    (if a.is_final { 0x0010u16 } else { 0 }) | (if a.is_synthetic { 0x1000u16 } else { 0 }) | (if a.is_mandated { 0x8000u16 } else { 0 })
}

impl From<u16> for ParameterFlags {
    fn from(value: u16) -> (r: ParameterFlags) {
        ParameterFlags {
            is_final: value & 0x0010 != 0,
            is_synthetic: value & 0x1000 != 0,
            is_mandated: value & 0x8000 != 0,
        }
    }
}

impl vstd::std_specs::convert::FromSpecImpl<u16> for ParameterFlags {
    open spec fn obeys_from_spec() -> bool {
        true
    }

    open spec fn from_spec(v: u16) -> ParameterFlags {
        parameter_flags_of(v)
    }
}

impl From<ParameterFlags> for u16 {
    fn from(value: ParameterFlags) -> (r: u16) {
        (if value.is_final { 0x0010u16 } else { 0 }) | (if value.is_synthetic { 0x1000u16 } else { 0 }) | (if value.is_mandated { 0x8000u16 } else { 0 })
    }
}

impl vstd::std_specs::convert::FromSpecImpl<ParameterFlags> for u16 {
    open spec fn obeys_from_spec() -> bool {
        true
    }

    open spec fn from_spec(v: ParameterFlags) -> u16 {
        parameter_flags_bits(v)
    }
}

/// Writing ParameterFlags flags to an `u16` and reading them back gives them back.
pub proof fn lemma_parameter_flags_round_trip(a: ParameterFlags)
    ensures
        parameter_flags_of(parameter_flags_bits(a)) == a,
{
    let (x0, x1, x2) = (a.is_final, a.is_synthetic, a.is_mandated);
    assert({
        let v = (if x0 { 0x0010u16 } else { 0 }) | (if x1 { 0x1000u16 } else { 0 }) | (if x2 { 0x8000u16 } else { 0 });
        &&& (v & 0x0010 != 0) == x0
        &&& (v & 0x1000 != 0) == x1
        &&& (v & 0x8000 != 0) == x2
    }) by (bit_vector);
}

/// Each of the method parameter flags stands for one bit of the `access_flags` item of a method parameter, in reading and
/// in writing: `0x0010` for `is_final` (ACC_FINAL), `0x1000` for `is_synthetic` (ACC_SYNTHETIC), `0x8000` for `is_mandated` (ACC_MANDATED).
pub proof fn lemma_parameter_flags_bits(v: u16, a: ParameterFlags)
    ensures
        parameter_flags_of(v).is_final == (v & 0x0010 != 0),
        parameter_flags_of(v).is_synthetic == (v & 0x1000 != 0),
        parameter_flags_of(v).is_mandated == (v & 0x8000 != 0),
        (parameter_flags_bits(a) & 0x0010 != 0) == a.is_final,
        (parameter_flags_bits(a) & 0x1000 != 0) == a.is_synthetic,
        (parameter_flags_bits(a) & 0x8000 != 0) == a.is_mandated,
{
    lemma_parameter_flags_round_trip(a);
}


} // verus!
