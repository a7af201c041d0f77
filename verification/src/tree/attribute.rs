//! Attributes that are kept as they were read.
use vstd::prelude::*;
use crate::jstring::JavaString;

verus! {

/// An attribute the library does not interpret: its name and its bytes.
#[derive(Debug, PartialEq, Eq)]
pub struct Attribute {
    pub name: JavaString,
    pub bytes: Vec<u8>,
}

/// The model of an [`Attribute`]: its name and its bytes.
pub ghost struct AttributeModel {
    pub name: Seq<u32>,
    pub bytes: Seq<u8>,
}

impl View for Attribute {
    type V = AttributeModel;

    open spec fn view(&self) -> AttributeModel {
        AttributeModel { name: self.name@, bytes: self.bytes@ }
    }
}

} // verus!
