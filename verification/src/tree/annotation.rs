//! Annotations and the values of their elements.
use vstd::prelude::*;
use crate::jstring::JavaString;
use crate::tree::descriptor::ReturnDescriptor;
use crate::tree::field::FieldDescriptor;
use crate::tree::type_annotation::{TypePath, TypePathKind};

verus! {

/// A constant value of an annotation element. A `float` or a `double` is held
/// by its IEEE 754 bits.
#[derive(Debug, PartialEq, Eq)]
pub enum Object {
    Byte(i8),
    Char(u16),
    Double(u64),
    Float(u32),
    Integer(i32),
    Long(i64),
    Short(i16),
    Boolean(bool),
    String(JavaString),
}

/// The model of an [`Object`].
pub ghost enum ObjectModel {
    Byte(i8),
    Char(u16),
    Double(u64),
    Float(u32),
    Integer(i32),
    Long(i64),
    Short(i16),
    Boolean(bool),
    String(Seq<u32>),
}

impl View for Object {
    type V = ObjectModel;

    open spec fn view(&self) -> ObjectModel {
        match self {
            Object::Byte(v) => ObjectModel::Byte(*v),
            Object::Char(v) => ObjectModel::Char(*v),
            Object::Double(v) => ObjectModel::Double(*v),
            Object::Float(v) => ObjectModel::Float(*v),
            Object::Integer(v) => ObjectModel::Integer(*v),
            Object::Long(v) => ObjectModel::Long(*v),
            Object::Short(v) => ObjectModel::Short(*v),
            Object::Boolean(v) => ObjectModel::Boolean(*v),
            Object::String(s) => ObjectModel::String(s@),
        }
    }
}

/// The value of an annotation element.
#[derive(Debug, PartialEq, Eq)]
pub enum ElementValue {
    Object(Object),
    Enum { enum_type: FieldDescriptor, const_name: JavaString },
    Class(ReturnDescriptor),
    AnnotationInterface(Annotation),
    ArrayType(Vec<ElementValue>),
}

/// An element of an annotation: its name and its value.
#[derive(Debug, PartialEq, Eq)]
pub struct ElementValuePair {
    pub name: JavaString,
    pub value: ElementValue,
}

/// An annotation: its type, and the values of its elements.
#[derive(Debug, PartialEq, Eq)]
pub struct Annotation {
    pub annotation_type: FieldDescriptor,
    pub element_value_pairs: Vec<ElementValuePair>,
}

/// The model of an [`ElementValue`].
pub ghost enum ValueModel {
    Object(ObjectModel),
    Enum(Seq<u32>, Seq<u32>),
    Class(Seq<u32>),
    Annotation(AnnotationModel),
    Array(Seq<ValueModel>),
}

/// The model of an [`Annotation`]: its type, and the names and values of its elements.
pub ghost struct AnnotationModel {
    pub annotation_type: Seq<u32>,
    pub pairs: Seq<(Seq<u32>, ValueModel)>,
}

/// The model of an element value.
pub open spec fn value_view(v: ElementValue) -> ValueModel
    decreases v,
{
    match v {
        ElementValue::Object(o) => ValueModel::Object(o@),
        ElementValue::Enum { enum_type, const_name } => ValueModel::Enum(enum_type@, const_name@),
        ElementValue::Class(c) => ValueModel::Class(c@),
        ElementValue::AnnotationInterface(a) => ValueModel::Annotation(AnnotationModel {
            annotation_type: a.annotation_type@,
            pairs: pairs_view(a.element_value_pairs@),
        }),
        ElementValue::ArrayType(vs) => ValueModel::Array(values_view(vs@)),
    }
}

/// The models of a sequence of element values.
pub open spec fn values_view(s: Seq<ElementValue>) -> Seq<ValueModel>
    decreases s,
{
    if s.len() == 0 {
        Seq::empty()
    } else {
        seq![value_view(s[0])] + values_view(s.drop_first())
    }
}

/// The models of a sequence of element-value pairs.
pub open spec fn pairs_view(s: Seq<ElementValuePair>) -> Seq<(Seq<u32>, ValueModel)>
    decreases s,
{
    if s.len() == 0 {
        Seq::empty()
    } else {
        seq![(s[0].name@, value_view(s[0].value))] + pairs_view(s.drop_first())
    }
}

impl View for ElementValue {
    type V = ValueModel;

    open spec fn view(&self) -> ValueModel {
        value_view(*self)
    }
}

impl View for Annotation {
    type V = AnnotationModel;

    open spec fn view(&self) -> AnnotationModel {
        AnnotationModel { annotation_type: self.annotation_type@, pairs: pairs_view(self.element_value_pairs@) }
    }
}

/// The models of a sequence of annotations.
pub open spec fn annotations_view(s: Seq<Annotation>) -> Seq<AnnotationModel> {
    s.map_values(|a: Annotation| a@)
}

/// The models of a sequence of element values, one more at the end.
pub proof fn lemma_values_view_push(s: Seq<ElementValue>, v: ElementValue)
    ensures
        values_view(s.push(v)) == values_view(s).push(value_view(v)),
    decreases s.len(),
{
    if s.len() == 0 {
        assert(s.push(v).drop_first() =~= Seq::<ElementValue>::empty());
        assert(values_view(Seq::<ElementValue>::empty()) =~= Seq::<ValueModel>::empty());
        assert(s.push(v)[0] == v);
        assert(values_view(s) =~= Seq::<ValueModel>::empty());
        assert(values_view(s.push(v)) =~= seq![value_view(v)]);
    } else {
        assert(s.push(v).drop_first() =~= s.drop_first().push(v));
        lemma_values_view_push(s.drop_first(), v);
        assert(values_view(s.push(v)) =~= values_view(s).push(value_view(v)));
    }
}

/// The models of a sequence of element-value pairs, one more at the end.
pub proof fn lemma_pairs_view_push(s: Seq<ElementValuePair>, p: ElementValuePair)
    ensures
        pairs_view(s.push(p)) == pairs_view(s).push((p.name@, value_view(p.value))),
    decreases s.len(),
{
    if s.len() == 0 {
        assert(s.push(p).drop_first() =~= Seq::<ElementValuePair>::empty());
        assert(pairs_view(Seq::<ElementValuePair>::empty()) =~= Seq::<(Seq<u32>, ValueModel)>::empty());
        assert(s.push(p)[0] == p);
        assert(pairs_view(s) =~= Seq::<(Seq<u32>, ValueModel)>::empty());
        assert(pairs_view(s.push(p)) =~= seq![(p.name@, value_view(p.value))]);
    } else {
        assert(s.push(p).drop_first() =~= s.drop_first().push(p));
        lemma_pairs_view_push(s.drop_first(), p);
        assert(pairs_view(s.push(p)) =~= pairs_view(s).push((p.name@, value_view(p.value))));
    }
}

/// The model of each element value is at its place in the models of a sequence.
pub proof fn lemma_values_view_index(s: Seq<ElementValue>)
    ensures
        values_view(s).len() == s.len(),
        forall|i: int| 0 <= i < s.len() ==> #[trigger] values_view(s)[i] == value_view(s[i]),
    decreases s.len(),
{
    if s.len() > 0 {
        lemma_values_view_index(s.drop_first());
        assert forall|i: int| 0 <= i < s.len() implies #[trigger] values_view(s)[i] == value_view(s[i]) by {
            if i > 0 {
                assert(s.drop_first()[i - 1] == s[i]);
            }
        }
    }
}

/// The model of each element-value pair is at its place in the models of a sequence.
pub proof fn lemma_pairs_view_index(s: Seq<ElementValuePair>)
    ensures
        pairs_view(s).len() == s.len(),
        forall|i: int| 0 <= i < s.len() ==> #[trigger] pairs_view(s)[i] == (s[i].name@, value_view(s[i].value)),
    decreases s.len(),
{
    if s.len() > 0 {
        lemma_pairs_view_index(s.drop_first());
        assert forall|i: int| 0 <= i < s.len() implies #[trigger] pairs_view(s)[i] == (s[i].name@, value_view(s[i].value)) by {
            if i > 0 {
                assert(s.drop_first()[i - 1] == s[i]);
            }
        }
    }
}

/// A type annotation: where in a type of the member it stands, and the annotation.
#[derive(Debug)]
pub struct TypeAnnotation<T> {
    pub type_reference: T,
    pub type_path: TypePath,
    pub annotation: Annotation,
}

/// The model of a [`TypeAnnotation`].
pub ghost struct TypeAnnotationModel<T> {
    pub type_reference: T,
    pub type_path: Seq<TypePathKind>,
    pub annotation: AnnotationModel,
}

impl<T> View for TypeAnnotation<T> {
    type V = TypeAnnotationModel<T>;

    open spec fn view(&self) -> TypeAnnotationModel<T> {
        TypeAnnotationModel { type_reference: self.type_reference, type_path: self.type_path@, annotation: self.annotation@ }
    }
}

/// The models of a sequence of type annotations.
pub open spec fn type_annotations_view<T>(s: Seq<TypeAnnotation<T>>) -> Seq<TypeAnnotationModel<T>> {
    s.map_values(|a: TypeAnnotation<T>| a@)
}

} // verus!
