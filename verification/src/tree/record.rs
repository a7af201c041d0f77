//! The components of a record class.
use vstd::prelude::*;
use crate::jstring::JavaString;
use crate::tree::annotation::{Annotation, AnnotationModel, annotations_view};
use crate::tree::attribute::{Attribute, AttributeModel};
use crate::tree::field::{FieldDescriptor, FieldSignature};

verus! {

/// The name of a record component.
#[derive(Debug, PartialEq, Eq)]
pub struct RecordName(JavaString);

impl View for RecordName {
    type V = Seq<u32>;

    closed spec fn view(&self) -> Seq<u32> {
        self.0@
    }
}

impl RecordName {
    /// Wraps `s` without checking its contents.
    pub fn from_inner_unchecked(s: JavaString) -> (r: RecordName)
        ensures
            r@ == s@,
    {
        RecordName(s)
    }

    /// The underlying string.
    pub fn as_inner(&self) -> (r: &JavaString)
        ensures
            r@ == self@,
    {
        &self.0
    }
}

/// A component of a record class: its name and descriptor, and its attributes.
#[derive(Debug)]
pub struct RecordComponent {
    pub name: RecordName,
    pub descriptor: FieldDescriptor,

    pub signature: Option<FieldSignature>,

    pub runtime_visible_annotations: Vec<Annotation>,
    pub runtime_invisible_annotations: Vec<Annotation>,

    pub attributes: Vec<Attribute>,
}

/// The model of a [`RecordComponent`].
pub ghost struct RecordModel {
    pub name: Seq<u32>,
    pub descriptor: Seq<u32>,
    pub signature: Option<Seq<u32>>,
    pub runtime_visible_annotations: Seq<AnnotationModel>,
    pub runtime_invisible_annotations: Seq<AnnotationModel>,
    pub attributes: Seq<AttributeModel>,
}

impl View for RecordComponent {
    type V = RecordModel;

    open spec fn view(&self) -> RecordModel {
        RecordModel {
            name: self.name@,
            descriptor: self.descriptor@,
            signature: match &self.signature {
                Some(s) => Some(s@),
                None => None,
            },
            runtime_visible_annotations: annotations_view(self.runtime_visible_annotations@),
            runtime_invisible_annotations: annotations_view(self.runtime_invisible_annotations@),
            attributes: self.attributes@.map_values(|a: Attribute| a@),
        }
    }
}

/// The model of a record component with the given name and descriptor, and no attributes.
pub open spec fn new_record_component(name: Seq<u32>, descriptor: Seq<u32>) -> RecordModel {
    RecordModel {
        name,
        descriptor,
        signature: None,
        runtime_visible_annotations: Seq::empty(),
        runtime_invisible_annotations: Seq::empty(),
        attributes: Seq::empty(),
    }
}

impl RecordComponent {
    /// A record component with the given name and descriptor, and no attributes.
    pub fn new(name: RecordName, descriptor: FieldDescriptor) -> (r: RecordComponent)
        ensures
            r@ == new_record_component(name@, descriptor@),
    {
        let r = RecordComponent {
            name,
            descriptor,
            signature: None,
            runtime_visible_annotations: Vec::new(),
            runtime_invisible_annotations: Vec::new(),
            attributes: Vec::new(),
        };
        assert(r.attributes@.map_values(|a: Attribute| a@) =~= Seq::<AttributeModel>::empty());
        assert(annotations_view(r.runtime_visible_annotations@) =~= Seq::<AnnotationModel>::empty());
        assert(annotations_view(r.runtime_invisible_annotations@) =~= Seq::<AnnotationModel>::empty());
        r
    }
}

} // verus!
