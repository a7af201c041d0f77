//! The fields and methods of a class, as read.
use vstd::prelude::*;
use crate::tree::attribute::{Attribute, AttributeModel};
use crate::tree::class::ClassName;
use crate::tree::instruction::{Code, CodeModel};
use crate::tree::method::{MethodAccess, MethodDescriptor, MethodName, MethodNameAndDesc, MethodParameter, MethodSignature,
    ParameterFlags};
use crate::tree::field::{FieldAccess, FieldDescriptor, FieldName, FieldNameAndDesc, FieldSignature};
use crate::jstring::JavaString;
use crate::tree::annotation::{Annotation, AnnotationModel, ElementValue, ValueModel, annotations_view, TypeAnnotation,
    TypeAnnotationModel, type_annotations_view};
use crate::tree::type_annotation::TargetInfoMethod;

verus! {

/// A method: its access flags, name and descriptor, and its attributes.
#[derive(Debug)]
pub struct Method {
    pub access: MethodAccess,
    pub name: MethodName,
    pub descriptor: MethodDescriptor,

    pub has_deprecated_attribute: bool,
    pub has_synthetic_attribute: bool,

    pub code: Option<Code>,
    pub exceptions: Option<Vec<ClassName>>,
    pub signature: Option<MethodSignature>,

    pub runtime_visible_annotations: Vec<Annotation>,
    pub runtime_invisible_annotations: Vec<Annotation>,
    pub runtime_visible_type_annotations: Vec<TypeAnnotation<TargetInfoMethod>>,
    pub runtime_invisible_type_annotations: Vec<TypeAnnotation<TargetInfoMethod>>,
    pub annotation_default: Option<ElementValue>,

    pub method_parameters: Option<Vec<MethodParameter>>,

    pub attributes: Vec<Attribute>,
}

/// The model of a [`MethodParameter`]: its name, if any, and its flags.
pub ghost struct ParameterModel {
    pub name: Option<Seq<u32>>,
    pub flags: ParameterFlags,
}

/// The model of a [`Method`].
pub ghost struct MethodModel {
    pub access: MethodAccess,
    pub name: Seq<u32>,
    pub descriptor: Seq<u32>,
    pub has_deprecated_attribute: bool,
    pub has_synthetic_attribute: bool,
    pub code: Option<CodeModel>,
    pub exceptions: Option<Seq<Seq<u32>>>,
    pub signature: Option<Seq<u32>>,
    pub runtime_visible_annotations: Seq<AnnotationModel>,
    pub runtime_invisible_annotations: Seq<AnnotationModel>,
    pub runtime_visible_type_annotations: Seq<TypeAnnotationModel<TargetInfoMethod>>,
    pub runtime_invisible_type_annotations: Seq<TypeAnnotationModel<TargetInfoMethod>>,
    pub annotation_default: Option<ValueModel>,
    pub method_parameters: Option<Seq<ParameterModel>>,
    pub attributes: Seq<AttributeModel>,
}

/// The model of a method parameter.
pub open spec fn parameter_view(p: MethodParameter) -> ParameterModel {
    ParameterModel {
        name: match p.name {
            Some(n) => Some(n@),
            None => None,
        },
        flags: p.flags,
    }
}

/// The models of a sequence of method parameters.
pub open spec fn parameters_view(s: Seq<MethodParameter>) -> Seq<ParameterModel> {
    s.map_values(|p: MethodParameter| parameter_view(p))
}

impl View for Method {
    type V = MethodModel;

    open spec fn view(&self) -> MethodModel {
        MethodModel {
            access: self.access,
            name: self.name@,
            descriptor: self.descriptor@,
            has_deprecated_attribute: self.has_deprecated_attribute,
            has_synthetic_attribute: self.has_synthetic_attribute,
            code: match &self.code {
                Some(c) => Some(c@),
                None => None,
            },
            exceptions: match &self.exceptions {
                Some(v) => Some(v@.map_values(|c: ClassName| c@)),
                None => None,
            },
            signature: match &self.signature {
                Some(s) => Some(s@),
                None => None,
            },
            runtime_visible_annotations: annotations_view(self.runtime_visible_annotations@),
            runtime_invisible_annotations: annotations_view(self.runtime_invisible_annotations@),
            runtime_visible_type_annotations: type_annotations_view(self.runtime_visible_type_annotations@),
            runtime_invisible_type_annotations: type_annotations_view(self.runtime_invisible_type_annotations@),
            annotation_default: match &self.annotation_default {
                Some(v) => Some(v@),
                None => None,
            },
            method_parameters: match &self.method_parameters {
                Some(v) => Some(parameters_view(v@)),
                None => None,
            },
            attributes: self.attributes@.map_values(|a: Attribute| a@),
        }
    }
}

/// The model of a method with the given access flags, name and descriptor,
/// and no attributes.
pub open spec fn new_method(access: MethodAccess, name: Seq<u32>, descriptor: Seq<u32>) -> MethodModel {
    MethodModel {
        access,
        name,
        descriptor,
        has_deprecated_attribute: false,
        has_synthetic_attribute: false,
        code: None,
        exceptions: None,
        signature: None,
        runtime_visible_annotations: Seq::empty(),
        runtime_invisible_annotations: Seq::empty(),
        runtime_visible_type_annotations: Seq::empty(),
        runtime_invisible_type_annotations: Seq::empty(),
        annotation_default: None,
        method_parameters: None,
        attributes: Seq::empty(),
    }
}

impl Method {
    /// A method with the given access flags, name and descriptor, and no attributes.
    pub fn new(access: MethodAccess, name: MethodName, descriptor: MethodDescriptor) -> (r: Method)
        ensures
            r@ == new_method(access, name@, descriptor@),
    {
        let r = Method {
            access,
            name,
            descriptor,
            has_deprecated_attribute: false,
            has_synthetic_attribute: false,
            code: None,
            exceptions: None,
            signature: None,
            runtime_visible_annotations: Vec::new(),
            runtime_invisible_annotations: Vec::new(),
            runtime_visible_type_annotations: Vec::new(),
            runtime_invisible_type_annotations: Vec::new(),
            annotation_default: None,
            method_parameters: None,
            attributes: Vec::new(),
        };
        assert(r.attributes@.map_values(|a: Attribute| a@) =~= Seq::<AttributeModel>::empty());
        assert(annotations_view(r.runtime_visible_annotations@) =~= Seq::<AnnotationModel>::empty());
        assert(annotations_view(r.runtime_invisible_annotations@) =~= Seq::<AnnotationModel>::empty());
        assert(type_annotations_view(r.runtime_visible_type_annotations@)
            =~= Seq::<TypeAnnotationModel<TargetInfoMethod>>::empty());
        assert(type_annotations_view(r.runtime_invisible_type_annotations@)
            =~= Seq::<TypeAnnotationModel<TargetInfoMethod>>::empty());
        r
    }
}

/// The value of a `ConstantValue` attribute. A `float` or a `double` is held by
/// its IEEE 754 bits.
#[derive(Debug, PartialEq, Eq)]
pub enum ConstantValue {
    /// Also represents the value for a field of type `byte`, `char`, `short`, `boolean`.
    Integer(i32),
    Float(u32),
    Long(i64),
    Double(u64),
    String(JavaString),
}

/// The model of a [`ConstantValue`].
pub ghost enum ConstantModel {
    Integer(i32),
    Float(u32),
    Long(i64),
    Double(u64),
    String(Seq<u32>),
}

impl View for ConstantValue {
    type V = ConstantModel;

    open spec fn view(&self) -> ConstantModel {
        match self {
            ConstantValue::Integer(v) => ConstantModel::Integer(*v),
            ConstantValue::Float(v) => ConstantModel::Float(*v),
            ConstantValue::Long(v) => ConstantModel::Long(*v),
            ConstantValue::Double(v) => ConstantModel::Double(*v),
            ConstantValue::String(s) => ConstantModel::String(s@),
        }
    }
}

/// A field: its access flags, name and descriptor, and its attributes.
#[derive(Debug)]
pub struct Field {
    pub access: FieldAccess,
    pub name: FieldName,
    pub descriptor: FieldDescriptor,

    pub has_deprecated_attribute: bool,
    pub has_synthetic_attribute: bool,

    pub constant_value: Option<ConstantValue>,
    pub signature: Option<FieldSignature>,

    pub runtime_visible_annotations: Vec<Annotation>,
    pub runtime_invisible_annotations: Vec<Annotation>,

    pub attributes: Vec<Attribute>,
}

/// The model of a [`Field`].
pub ghost struct FieldModel {
    pub access: FieldAccess,
    pub name: Seq<u32>,
    pub descriptor: Seq<u32>,
    pub has_deprecated_attribute: bool,
    pub has_synthetic_attribute: bool,
    pub constant_value: Option<ConstantModel>,
    pub signature: Option<Seq<u32>>,
    pub runtime_visible_annotations: Seq<AnnotationModel>,
    pub runtime_invisible_annotations: Seq<AnnotationModel>,
    pub attributes: Seq<AttributeModel>,
}

impl View for Field {
    type V = FieldModel;

    open spec fn view(&self) -> FieldModel {
        FieldModel {
            access: self.access,
            name: self.name@,
            descriptor: self.descriptor@,
            has_deprecated_attribute: self.has_deprecated_attribute,
            has_synthetic_attribute: self.has_synthetic_attribute,
            constant_value: match &self.constant_value {
                Some(c) => Some(c@),
                None => None,
            },
            signature: match &self.signature {
                Some(s) => Some(s@),
                None => None,
            },
            runtime_visible_annotations: self.runtime_visible_annotations@.map_values(|a: Annotation| a@),
            runtime_invisible_annotations: self.runtime_invisible_annotations@.map_values(|a: Annotation| a@),
            attributes: self.attributes@.map_values(|a: Attribute| a@),
        }
    }
}

/// The model of a field with the given access flags, name and descriptor,
/// and no attributes.
pub open spec fn new_field(access: FieldAccess, name: Seq<u32>, descriptor: Seq<u32>) -> FieldModel {
    FieldModel {
        access,
        name,
        descriptor,
        has_deprecated_attribute: false,
        has_synthetic_attribute: false,
        constant_value: None,
        signature: None,
        runtime_visible_annotations: Seq::empty(),
        runtime_invisible_annotations: Seq::empty(),
        attributes: Seq::empty(),
    }
}

impl Field {
    /// A field with the given access flags, name and descriptor, and no attributes.
    pub fn new(access: FieldAccess, name: FieldName, descriptor: FieldDescriptor) -> (r: Field)
        ensures
            r@ == new_field(access, name@, descriptor@),
    {
        let r = Field {
            access,
            name,
            descriptor,
            has_deprecated_attribute: false,
            has_synthetic_attribute: false,
            constant_value: None,
            signature: None,
            runtime_visible_annotations: Vec::new(),
            runtime_invisible_annotations: Vec::new(),
            attributes: Vec::new(),
        };
        assert(r.attributes@.map_values(|a: Attribute| a@) =~= Seq::<AttributeModel>::empty());
        assert(r.runtime_visible_annotations@.map_values(|a: Annotation| a@) =~= Seq::<AnnotationModel>::empty());
        assert(r.runtime_invisible_annotations@.map_values(|a: Annotation| a@) =~= Seq::<AnnotationModel>::empty());
        r
    }
}

impl Method {
    /// The name and descriptor of this method, taken out of it.
    pub fn into_name_and_desc(self) -> (r: MethodNameAndDesc)
        ensures
            r.name@ == self.name@,
            r.desc@ == self.descriptor@,
    {
        MethodNameAndDesc { name: self.name, desc: self.descriptor }
    }

    /// A copy of the name and descriptor of this method.
    pub fn as_name_and_desc(&self) -> (r: MethodNameAndDesc)
        ensures
            r.name@ == self.name@,
            r.desc@ == self.descriptor@,
    {
        MethodNameAndDesc { name: self.name.duplicate(), desc: self.descriptor.duplicate() }
    }
}

impl Field {
    /// The name and descriptor of this field, taken out of it.
    pub fn into_name_and_desc(self) -> (r: FieldNameAndDesc)
        ensures
            r.name@ == self.name@,
            r.desc@ == self.descriptor@,
    {
        FieldNameAndDesc { name: self.name, desc: self.descriptor }
    }

    /// A copy of the name and descriptor of this field.
    pub fn as_name_and_desc(&self) -> (r: FieldNameAndDesc)
        ensures
            r.name@ == self.name@,
            r.desc@ == self.descriptor@,
    {
        FieldNameAndDesc { name: self.name.duplicate(), desc: self.descriptor.duplicate() }
    }
}

} // verus!
