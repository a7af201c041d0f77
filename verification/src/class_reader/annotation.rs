//! Reading annotations and the values of their elements.
use vstd::prelude::*;
use crate::bytes::{ClassReader, be_u16};
use crate::class_reader::module::{index_then, prepend_list};
use crate::class_reader::pool::{EntryModel, PoolRead, pool_double, pool_float, pool_integer, pool_long, pool_utf8};
use crate::error::Error;
use crate::tree::annotation::{Annotation, AnnotationModel, ElementValue, ElementValuePair, Object, ObjectModel,
    ValueModel, annotations_view, lemma_pairs_view_push, lemma_values_view_push, pairs_view, value_view, values_view};
use crate::tree::descriptor::{ReturnDescriptor, valid_field_descriptor, valid_return_descriptor};
use crate::tree::field::FieldDescriptor;
use crate::tree::annotation::{TypeAnnotation, TypeAnnotationModel, type_annotations_view};
use crate::tree::type_annotation::{TargetInfoClass, TargetInfoField, TargetInfoMethod, read_class_target,
    read_field_target, read_method_target, read_type_path, read_type_path_at};

verus! {

/// The tag of a `byte` constant.
pub const TAG_BYTE: u8 = 0x42;
/// The tag of a `char` constant.
pub const TAG_CHAR: u8 = 0x43;
/// The tag of a `double` constant.
pub const TAG_DOUBLE: u8 = 0x44;
/// The tag of a `float` constant.
pub const TAG_FLOAT: u8 = 0x46;
/// The tag of an `int` constant.
pub const TAG_INT: u8 = 0x49;
/// The tag of a `long` constant.
pub const TAG_LONG: u8 = 0x4A;
/// The tag of a `short` constant.
pub const TAG_SHORT: u8 = 0x53;
/// The tag of a `boolean` constant.
pub const TAG_BOOLEAN: u8 = 0x5A;
/// The tag of a `String` constant.
pub const TAG_STRING: u8 = 0x73;
/// The tag of an enum constant.
pub const TAG_ENUM: u8 = 0x65;
/// The tag of a class literal.
pub const TAG_CLASS: u8 = 0x63;
/// The tag of a nested annotation.
pub const TAG_ANNOTATION: u8 = 0x40;
/// The tag of an array.
pub const TAG_ARRAY: u8 = 0x5B;

/// Whether `tag` is the tag of a constant.
pub open spec fn object_tag(tag: u8) -> bool {
    tag == TAG_BYTE || tag == TAG_CHAR || tag == TAG_DOUBLE || tag == TAG_FLOAT || tag == TAG_INT || tag == TAG_LONG
        || tag == TAG_SHORT || tag == TAG_BOOLEAN || tag == TAG_STRING
}

/// The constant with tag `tag` at the pool index `i`: a `byte`, `char`,
/// `short` or `boolean` is the value of an `Integer` entry cut to its type.
pub open spec fn pool_object(p: Seq<Option<EntryModel>>, tag: u8, i: u16) -> Result<ObjectModel, Error> {
    if tag == TAG_DOUBLE {
        match pool_double(p, i) { Ok(v) => Ok(ObjectModel::Double(v)), Err(e) => Err(e) }
    } else if tag == TAG_FLOAT {
        match pool_float(p, i) { Ok(v) => Ok(ObjectModel::Float(v)), Err(e) => Err(e) }
    } else if tag == TAG_LONG {
        match pool_long(p, i) { Ok(v) => Ok(ObjectModel::Long(v)), Err(e) => Err(e) }
    } else if tag == TAG_STRING {
        match pool_utf8(p, i) { Ok(v) => Ok(ObjectModel::String(v)), Err(e) => Err(e) }
    } else {
        match pool_integer(p, i) {
            Ok(v) => Ok(if tag == TAG_BYTE {
                ObjectModel::Byte(v as i8)
            } else if tag == TAG_CHAR {
                ObjectModel::Char(v as u16)
            } else if tag == TAG_SHORT {
                ObjectModel::Short(v as i16)
            } else if tag == TAG_BOOLEAN {
                ObjectModel::Boolean(v != 0)
            } else {
                ObjectModel::Integer(v)
            }),
            Err(e) => Err(e),
        }
    }
}

/// The string of the `Utf8` entry at `i`, which must be a field descriptor.
pub open spec fn pool_field_descriptor(p: Seq<Option<EntryModel>>, i: u16) -> Result<Seq<u32>, Error> {
    match pool_utf8(p, i) {
        Ok(s) => if valid_field_descriptor(s) { Ok(s) } else { Err(Error::InvalidDescriptor) },
        Err(e) => Err(e),
    }
}

/// The string of the `Utf8` entry at `i`, which must be a return descriptor.
pub open spec fn pool_return_descriptor(p: Seq<Option<EntryModel>>, i: u16) -> Result<Seq<u32>, Error> {
    match pool_utf8(p, i) {
        Ok(s) => if valid_return_descriptor(s) { Ok(s) } else { Err(Error::InvalidDescriptor) },
        Err(e) => Err(e),
    }
}

/// Reading an element value at `pos`: a one-byte tag, then what the tag asks.
/// Values nest at most `d` deep; reading at `pos` never nests deeper than the
/// bytes left, so `d` at least the number of bytes left reads the whole value.
pub open spec fn value_at(b: Seq<u8>, pos: int, p: Seq<Option<EntryModel>>, d: nat) -> Result<(ValueModel, int), Error>
    decreases d, 0nat, 0nat,
{
    if d == 0 || pos + 1 > b.len() {
        Err(Error::UnexpectedEnd)
    } else {
        let tag = b[pos];
        if object_tag(tag) {
            match index_then(b, pos + 1, pool_object(p, tag, be_u16(b, pos + 1))) {
                Ok((o, end)) => Ok((ValueModel::Object(o), end)),
                Err(e) => Err(e),
            }
        } else if tag == TAG_ENUM {
            match index_then(b, pos + 1, pool_field_descriptor(p, be_u16(b, pos + 1))) {
                Ok((t, p1)) => match index_then(b, p1, pool_utf8(p, be_u16(b, p1))) {
                    Ok((c, end)) => Ok((ValueModel::Enum(t, c), end)),
                    Err(e) => Err(e),
                },
                Err(e) => Err(e),
            }
        } else if tag == TAG_CLASS {
            match index_then(b, pos + 1, pool_return_descriptor(p, be_u16(b, pos + 1))) {
                Ok((c, end)) => Ok((ValueModel::Class(c), end)),
                Err(e) => Err(e),
            }
        } else if tag == TAG_ANNOTATION {
            match annotation_at(b, pos + 1, p, (d - 1) as nat) {
                Ok((a, end)) => Ok((ValueModel::Annotation(a), end)),
                Err(e) => Err(e),
            }
        } else if tag == TAG_ARRAY {
            if pos + 3 > b.len() {
                Err(Error::UnexpectedEnd)
            } else {
                match values_from(b, pos + 3, be_u16(b, pos + 1) as nat, p, (d - 1) as nat) {
                    Ok((vs, end)) => Ok((ValueModel::Array(vs), end)),
                    Err(e) => Err(e),
                }
            }
        } else {
            Err(Error::UnknownTag)
        }
    }
}

/// Reading `n` element values from `pos` on.
pub open spec fn values_from(b: Seq<u8>, pos: int, n: nat, p: Seq<Option<EntryModel>>, d: nat)
    -> Result<(Seq<ValueModel>, int), Error>
    decreases d, 1nat, n,
{
    if n == 0 {
        Ok((Seq::empty(), pos))
    } else {
        match value_at(b, pos, p, d) {
            Ok((v, next)) => match values_from(b, next, (n - 1) as nat, p, d) {
                Ok((vs, end)) => Ok((seq![v] + vs, end)),
                Err(e) => Err(e),
            },
            Err(e) => Err(e),
        }
    }
}

/// Reading `n` element-value pairs from `pos` on: each the index of the name,
/// then the value.
pub open spec fn pairs_from(b: Seq<u8>, pos: int, n: nat, p: Seq<Option<EntryModel>>, d: nat)
    -> Result<(Seq<(Seq<u32>, ValueModel)>, int), Error>
    decreases d, 1nat, n,
{
    if n == 0 {
        Ok((Seq::empty(), pos))
    } else {
        match index_then(b, pos, pool_utf8(p, be_u16(b, pos))) {
            Ok((name, p1)) => match value_at(b, p1, p, d) {
                Ok((v, next)) => match pairs_from(b, next, (n - 1) as nat, p, d) {
                    Ok((ps, end)) => Ok((seq![(name, v)] + ps, end)),
                    Err(e) => Err(e),
                },
                Err(e) => Err(e),
            },
            Err(e) => Err(e),
        }
    }
}

/// Reading an annotation at `pos`: the index of its type, which must be a field
/// descriptor, then a two-byte count and the element-value pairs.
pub open spec fn annotation_at(b: Seq<u8>, pos: int, p: Seq<Option<EntryModel>>, d: nat) -> Result<(AnnotationModel, int), Error>
    decreases d, 2nat, 0nat,
{
    match index_then(b, pos, pool_field_descriptor(p, be_u16(b, pos))) {
        Ok((t, p1)) => if p1 + 2 > b.len() {
            Err(Error::UnexpectedEnd)
        } else {
            match pairs_from(b, p1 + 2, be_u16(b, p1) as nat, p, d) {
                Ok((ps, end)) => Ok((AnnotationModel { annotation_type: t, pairs: ps }, end)),
                Err(e) => Err(e),
            }
        },
        Err(e) => Err(e),
    }
}

/// Reading `n` annotations from `pos` on.
pub open spec fn annotations_from(b: Seq<u8>, pos: int, n: nat, p: Seq<Option<EntryModel>>, d: nat)
    -> Result<(Seq<AnnotationModel>, int), Error>
    decreases n,
{
    if n == 0 {
        Ok((Seq::empty(), pos))
    } else {
        match annotation_at(b, pos, p, d) {
            Ok((a, next)) => match annotations_from(b, next, (n - 1) as nat, p, d) {
                Ok((xs, end)) => Ok((seq![a] + xs, end)),
                Err(e) => Err(e),
            },
            Err(e) => Err(e),
        }
    }
}

/// Reading the contents of an annotations attribute at `pos`: a two-byte count,
/// then the annotations.
pub open spec fn read_annotations_at(b: Seq<u8>, pos: int, p: Seq<Option<EntryModel>>) -> Result<(Seq<AnnotationModel>, int), Error> {
    if pos + 2 > b.len() {
        Err(Error::UnexpectedEnd)
    } else {
        annotations_from(b, pos + 2, be_u16(b, pos) as nat, p, b.len())
    }
}

/// Reading the value of an `AnnotationDefault` attribute at `pos`.
pub open spec fn read_value_at(b: Seq<u8>, pos: int, p: Seq<Option<EntryModel>>) -> Result<(ValueModel, int), Error> {
    value_at(b, pos, p, b.len())
}

/// Reads the index of a `Utf8` entry that must be a field descriptor.
fn read_field_descriptor(reader: &mut ClassReader, pool: &PoolRead) -> (r: Result<FieldDescriptor, Error>)
    ensures
        final(reader).data() == old(reader).data(),
        match index_then(old(reader).data(), old(reader).position() as int,
            pool_field_descriptor(pool@, be_u16(old(reader).data(), old(reader).position() as int))) {
            Ok((t, end)) => r matches Ok(x) && x@ == t && final(reader).position() == end,
            Err(e) => r is Err && r->Err_0 == e,
        },
{
    FieldDescriptor::try_from(pool.get_utf8(reader.read_u16()?)?)
}

/// Reads the index of a `Utf8` entry that must be a return descriptor.
fn read_return_descriptor(reader: &mut ClassReader, pool: &PoolRead) -> (r: Result<ReturnDescriptor, Error>)
    ensures
        final(reader).data() == old(reader).data(),
        match index_then(old(reader).data(), old(reader).position() as int,
            pool_return_descriptor(pool@, be_u16(old(reader).data(), old(reader).position() as int))) {
            Ok((t, end)) => r matches Ok(x) && x@ == t && final(reader).position() == end,
            Err(e) => r is Err && r->Err_0 == e,
        },
{
    let s = pool.get_utf8(reader.read_u16()?)?;
    if ReturnDescriptor::is_valid(&s) {
        Ok(ReturnDescriptor::from_inner_unchecked(s))
    } else {
        Err(Error::InvalidDescriptor)
    }
}

/// Reads the pool index of a constant with tag `tag`, and the constant.
fn read_object(reader: &mut ClassReader, pool: &PoolRead, tag: u8) -> (r: Result<Object, Error>)
    requires
        object_tag(tag),
    ensures
        final(reader).data() == old(reader).data(),
        match index_then(old(reader).data(), old(reader).position() as int,
            pool_object(pool@, tag, be_u16(old(reader).data(), old(reader).position() as int))) {
            Ok((o, end)) => r matches Ok(x) && x@ == o && final(reader).position() == end,
            Err(e) => r is Err && r->Err_0 == e,
        },
{
    let i = reader.read_u16()?;
    if tag == TAG_DOUBLE {
        Ok(Object::Double(pool.get_double(i)?))
    } else if tag == TAG_FLOAT {
        Ok(Object::Float(pool.get_float(i)?))
    } else if tag == TAG_LONG {
        Ok(Object::Long(pool.get_long(i)?))
    } else if tag == TAG_STRING {
        Ok(Object::String(pool.get_utf8(i)?))
    } else if tag == TAG_BYTE {
        Ok(Object::Byte(pool.get_integer_as_byte(i)?))
    } else if tag == TAG_CHAR {
        Ok(Object::Char(pool.get_integer_as_char(i)?))
    } else if tag == TAG_SHORT {
        Ok(Object::Short(pool.get_integer_as_short(i)?))
    } else if tag == TAG_BOOLEAN {
        Ok(Object::Boolean(pool.get_integer_as_boolean(i)?))
    } else {
        Ok(Object::Integer(pool.get_integer(i)?))
    }
}

/// Reads an element value, nested at most `d` deep.
fn read_value(reader: &mut ClassReader, pool: &PoolRead, Ghost(d): Ghost<nat>) -> (r: Result<ElementValue, Error>)
    requires
        d >= old(reader).data().len() - old(reader).position(),
    ensures
        final(reader).data() == old(reader).data(),
        r is Ok ==> final(reader).position() > old(reader).position(),
        match value_at(old(reader).data(), old(reader).position() as int, pool@, d) {
            Ok((v, end)) => r matches Ok(x) && x@ == v && final(reader).position() == end,
            Err(e) => r is Err && r->Err_0 == e,
        },
    decreases d, 0nat, 0nat,
{
    let tag = reader.read_u8()?;
    if tag == TAG_BYTE || tag == TAG_CHAR || tag == TAG_DOUBLE || tag == TAG_FLOAT || tag == TAG_INT || tag == TAG_LONG
        || tag == TAG_SHORT || tag == TAG_BOOLEAN || tag == TAG_STRING {
        Ok(ElementValue::Object(read_object(reader, pool, tag)?))
    } else if tag == TAG_ENUM {
        let enum_type = read_field_descriptor(reader, pool)?;
        let const_name = pool.get_utf8(reader.read_u16()?)?;
        Ok(ElementValue::Enum { enum_type, const_name })
    } else if tag == TAG_CLASS {
        Ok(ElementValue::Class(read_return_descriptor(reader, pool)?))
    } else if tag == TAG_ANNOTATION {
        Ok(ElementValue::AnnotationInterface(read_annotation(reader, pool, Ghost((d - 1) as nat))?))
    } else if tag == TAG_ARRAY {
        Ok(ElementValue::ArrayType(read_values(reader, pool, Ghost((d - 1) as nat))?))
    } else {
        Err(Error::UnknownTag)
    }
}

/// Reads a two-byte count, then that many element values, nested at most `d` deep.
fn read_values(reader: &mut ClassReader, pool: &PoolRead, Ghost(d): Ghost<nat>) -> (r: Result<Vec<ElementValue>, Error>)
    requires
        d >= old(reader).data().len() - old(reader).position() - 2,
    ensures
        final(reader).data() == old(reader).data(),
        r is Ok ==> final(reader).position() >= old(reader).position() + 2,
        old(reader).position() + 2 > old(reader).data().len() ==> r == Err::<Vec<ElementValue>, Error>(Error::UnexpectedEnd),
        old(reader).position() + 2 <= old(reader).data().len() ==> match values_from(old(reader).data(),
            old(reader).position() + 2 as int, be_u16(old(reader).data(), old(reader).position() as int) as nat, pool@, d) {
            Ok((v, end)) => r matches Ok(x) && values_view(x@) == v && final(reader).position() == end,
            Err(e) => r is Err && r->Err_0 == e,
        },
    decreases d, 1nat, 0nat,
{
    let ghost b = reader.data();
    let n = reader.read_u16()?;
    let ghost whole = values_from(b, reader.position() as int, n as nat, pool@, d);
    let mut v: Vec<ElementValue> = Vec::new();
    let mut i: u16 = 0;
    assert(whole == prepend_list(values_view(v@), whole)) by {
        if let Ok((xs, end)) = whole {
            assert(values_view(v@) + xs =~= xs);
        }
    }
    while i < n
        invariant
            reader.data() == b,
            b == old(reader).data(),
            i <= n,
            reader.position() >= old(reader).position() + 2,
            d >= b.len() - old(reader).position() - 2,
            n == be_u16(b, old(reader).position() as int),
            whole == values_from(b, old(reader).position() + 2 as int, n as nat, pool@, d),
            whole == prepend_list(values_view(v@), values_from(b, reader.position() as int, (n - i) as nat, pool@, d)),
        decreases n - i,
    {
        let x = match read_value(reader, pool, Ghost(d)) {
            Ok(x) => x,
            Err(e) => { return Err(e); },
        };
        let ghost before = values_view(v@);
        let ghost xv = value_view(x);
        proof {
            lemma_values_view_push(v@, x);
        }
        v.push(x);
        proof {
            if let Ok((xs, end)) = values_from(b, reader.position() as int, (n - i - 1) as nat, pool@, d) {
                assert(before + (seq![xv] + xs) =~= values_view(v@) + xs);
            }
        }
        i = i + 1;
    }
    proof {
        assert(values_view(v@) + Seq::<ValueModel>::empty() =~= values_view(v@));
    }
    Ok(v)
}

/// Reads a two-byte count, then that many element-value pairs, nested at most `d` deep.
fn read_pairs(reader: &mut ClassReader, pool: &PoolRead, Ghost(d): Ghost<nat>) -> (r: Result<Vec<ElementValuePair>, Error>)
    requires
        d >= old(reader).data().len() - old(reader).position() - 2,
    ensures
        final(reader).data() == old(reader).data(),
        r is Ok ==> final(reader).position() >= old(reader).position() + 2,
        old(reader).position() + 2 > old(reader).data().len() ==> r == Err::<Vec<ElementValuePair>, Error>(Error::UnexpectedEnd),
        old(reader).position() + 2 <= old(reader).data().len() ==> match pairs_from(old(reader).data(),
            old(reader).position() + 2 as int, be_u16(old(reader).data(), old(reader).position() as int) as nat, pool@, d) {
            Ok((v, end)) => r matches Ok(x) && pairs_view(x@) == v && final(reader).position() == end,
            Err(e) => r is Err && r->Err_0 == e,
        },
    decreases d, 1nat, 0nat,
{
    let ghost b = reader.data();
    let n = reader.read_u16()?;
    let ghost whole = pairs_from(b, reader.position() as int, n as nat, pool@, d);
    let mut v: Vec<ElementValuePair> = Vec::new();
    let mut i: u16 = 0;
    assert(whole == prepend_list(pairs_view(v@), whole)) by {
        if let Ok((xs, end)) = whole {
            assert(pairs_view(v@) + xs =~= xs);
        }
    }
    while i < n
        invariant
            reader.data() == b,
            b == old(reader).data(),
            i <= n,
            reader.position() >= old(reader).position() + 2,
            d >= b.len() - old(reader).position() - 2,
            n == be_u16(b, old(reader).position() as int),
            whole == pairs_from(b, old(reader).position() + 2 as int, n as nat, pool@, d),
            whole == prepend_list(pairs_view(v@), pairs_from(b, reader.position() as int, (n - i) as nat, pool@, d)),
        decreases n - i,
    {
        let name = match reader.read_u16() {
            Ok(k) => match pool.get_utf8(k) {
                Ok(s) => s,
                Err(e) => { return Err(e); },
            },
            Err(e) => { return Err(e); },
        };
        let value = match read_value(reader, pool, Ghost(d)) {
            Ok(x) => x,
            Err(e) => { return Err(e); },
        };
        let pair = ElementValuePair { name, value };
        let ghost before = pairs_view(v@);
        let ghost pv = (pair.name@, value_view(pair.value));
        proof {
            lemma_pairs_view_push(v@, pair);
        }
        v.push(pair);
        proof {
            if let Ok((xs, end)) = pairs_from(b, reader.position() as int, (n - i - 1) as nat, pool@, d) {
                assert(before + (seq![pv] + xs) =~= pairs_view(v@) + xs);
            }
        }
        i = i + 1;
    }
    proof {
        assert(pairs_view(v@) + Seq::<(Seq<u32>, ValueModel)>::empty() =~= pairs_view(v@));
    }
    Ok(v)
}

/// Reads an annotation, nested at most `d` deep.
fn read_annotation(reader: &mut ClassReader, pool: &PoolRead, Ghost(d): Ghost<nat>) -> (r: Result<Annotation, Error>)
    requires
        d >= old(reader).data().len() - old(reader).position(),
    ensures
        final(reader).data() == old(reader).data(),
        r is Ok ==> final(reader).position() > old(reader).position(),
        match annotation_at(old(reader).data(), old(reader).position() as int, pool@, d) {
            Ok((a, end)) => r matches Ok(x) && x@ == a && final(reader).position() == end,
            Err(e) => r is Err && r->Err_0 == e,
        },
    decreases d, 2nat, 0nat,
{
    let annotation_type = read_field_descriptor(reader, pool)?;
    let element_value_pairs = read_pairs(reader, pool, Ghost(d))?;
    Ok(Annotation { annotation_type, element_value_pairs })
}

/// Reads the contents of an annotations attribute: a two-byte count, then the annotations.
pub fn read_annotations(reader: &mut ClassReader, pool: &PoolRead) -> (r: Result<Vec<Annotation>, Error>)
    ensures
        final(reader).data() == old(reader).data(),
        match read_annotations_at(old(reader).data(), old(reader).position() as int, pool@) {
            Ok((v, end)) => r matches Ok(x) && annotations_view(x@) == v && final(reader).position() == end,
            Err(e) => r is Err && r->Err_0 == e,
        },
{
    let ghost b = reader.data();
    let ghost d = b.len();
    let n = reader.read_u16()?;
    let ghost whole = annotations_from(b, reader.position() as int, n as nat, pool@, d);
    let mut v: Vec<Annotation> = Vec::new();
    let mut i: u16 = 0;
    assert(whole == prepend_list(annotations_view(v@), whole)) by {
        if let Ok((xs, end)) = whole {
            assert(annotations_view(v@) + xs =~= xs);
        }
    }
    while i < n
        invariant
            reader.data() == b,
            b == old(reader).data(),
            d == b.len(),
            i <= n,
            whole == read_annotations_at(old(reader).data(), old(reader).position() as int, pool@),
            whole == prepend_list(annotations_view(v@), annotations_from(b, reader.position() as int, (n - i) as nat, pool@, d)),
        decreases n - i,
    {
        let a = match read_annotation(reader, pool, Ghost(d)) {
            Ok(x) => x,
            Err(e) => { return Err(e); },
        };
        let ghost before = annotations_view(v@);
        let ghost av = a@;
        v.push(a);
        proof {
            assert(annotations_view(v@) =~= before.push(av));
            if let Ok((xs, end)) = annotations_from(b, reader.position() as int, (n - i - 1) as nat, pool@, d) {
                assert(before + (seq![av] + xs) =~= annotations_view(v@) + xs);
            }
        }
        i = i + 1;
    }
    proof {
        assert(annotations_view(v@) + Seq::<AnnotationModel>::empty() =~= annotations_view(v@));
    }
    Ok(v)
}

/// Reads an element value, such as the contents of an `AnnotationDefault` attribute.
pub fn read_element_value(reader: &mut ClassReader, pool: &PoolRead) -> (r: Result<ElementValue, Error>)
    ensures
        final(reader).data() == old(reader).data(),
        match read_value_at(old(reader).data(), old(reader).position() as int, pool@) {
            Ok((v, end)) => r matches Ok(x) && x@ == v && final(reader).position() == end,
            Err(e) => r is Err && r->Err_0 == e,
        },
{
    read_value(reader, pool, Ghost(reader.data().len()))
}

/// Reading a type annotation at `pos`: its target with `target`, its type
/// path, then the annotation.
pub open spec fn type_annotation_at<T>(b: Seq<u8>, pos: int, p: Seq<Option<EntryModel>>,
    target: spec_fn(Seq<u8>, int) -> Result<(T, int), Error>) -> Result<(TypeAnnotationModel<T>, int), Error>
{
    match target(b, pos) {
        Ok((t, p1)) => match read_type_path_at(b, p1) {
            Ok((path, p2)) => match annotation_at(b, p2, p, b.len()) {
                Ok((a, end)) => Ok((TypeAnnotationModel { type_reference: t, type_path: path, annotation: a }, end)),
                Err(e) => Err(e),
            },
            Err(e) => Err(e),
        },
        Err(e) => Err(e),
    }
}

/// Reading `n` type annotations from `pos` on.
pub open spec fn type_annotations_from<T>(b: Seq<u8>, pos: int, n: nat, p: Seq<Option<EntryModel>>,
    target: spec_fn(Seq<u8>, int) -> Result<(T, int), Error>) -> Result<(Seq<TypeAnnotationModel<T>>, int), Error>
    decreases n,
{
    if n == 0 {
        Ok((Seq::empty(), pos))
    } else {
        match type_annotation_at(b, pos, p, target) {
            Ok((a, next)) => match type_annotations_from(b, next, (n - 1) as nat, p, target) {
                Ok((xs, end)) => Ok((seq![a] + xs, end)),
                Err(e) => Err(e),
            },
            Err(e) => Err(e),
        }
    }
}

/// Reading the contents of a type annotations attribute at `pos`: a two-byte
/// count, then the type annotations, their targets read with `target`.
pub open spec fn read_type_annotations_at<T>(b: Seq<u8>, pos: int, p: Seq<Option<EntryModel>>,
    target: spec_fn(Seq<u8>, int) -> Result<(T, int), Error>) -> Result<(Seq<TypeAnnotationModel<T>>, int), Error>
{
    if pos + 2 > b.len() {
        Err(Error::UnexpectedEnd)
    } else {
        type_annotations_from(b, pos + 2, be_u16(b, pos) as nat, p, target)
    }
}

/// Reading a class target.
pub open spec fn class_target() -> spec_fn(Seq<u8>, int) -> Result<(TargetInfoClass, int), Error> {
    |b: Seq<u8>, pos: int| read_class_target(b, pos)
}

/// Reading a field target.
pub open spec fn field_target() -> spec_fn(Seq<u8>, int) -> Result<(TargetInfoField, int), Error> {
    |b: Seq<u8>, pos: int| read_field_target(b, pos)
}

/// Reading a method target.
pub open spec fn method_target() -> spec_fn(Seq<u8>, int) -> Result<(TargetInfoMethod, int), Error> {
    |b: Seq<u8>, pos: int| read_method_target(b, pos)
}

/// Reads the contents of a type annotations attribute of a class: a two-byte
/// count, then the type annotations.
pub fn read_class_type_annotations(reader: &mut ClassReader, pool: &PoolRead) -> (r: Result<Vec<TypeAnnotation<TargetInfoClass>>, Error>)
    ensures
        final(reader).data() == old(reader).data(),
        match read_type_annotations_at(old(reader).data(), old(reader).position() as int, pool@, class_target()) {
            Ok((v, end)) => r matches Ok(x) && type_annotations_view(x@) == v && final(reader).position() == end,
            Err(e) => r is Err && r->Err_0 == e,
        },
{
    let ghost b = reader.data();
    let ghost target = class_target();
    let n = reader.read_u16()?;
    let ghost whole = type_annotations_from(b, reader.position() as int, n as nat, pool@, target);
    let mut v: Vec<TypeAnnotation<TargetInfoClass>> = Vec::new();
    let mut i: u16 = 0;
    assert(whole == prepend_list(type_annotations_view(v@), whole)) by {
        if let Ok((xs, end)) = whole {
            assert(type_annotations_view(v@) + xs =~= xs);
        }
    }
    while i < n
        invariant
            reader.data() == b,
            b == old(reader).data(),
            target == class_target(),
            i <= n,
            whole == read_type_annotations_at(old(reader).data(), old(reader).position() as int, pool@, class_target()),
            whole == prepend_list(type_annotations_view(v@), type_annotations_from(b, reader.position() as int,
                (n - i) as nat, pool@, target)),
        decreases n - i,
    {
        let type_reference = match TargetInfoClass::read_type_reference(reader) {
            Ok(x) => x,
            Err(e) => { return Err(e); },
        };
        let type_path = match read_type_path(reader) {
            Ok(x) => x,
            Err(e) => { return Err(e); },
        };
        let annotation = match read_annotation(reader, pool, Ghost(b.len())) {
            Ok(x) => x,
            Err(e) => { return Err(e); },
        };
        let a = TypeAnnotation { type_reference, type_path, annotation };
        let ghost before = type_annotations_view(v@);
        let ghost av = a@;
        v.push(a);
        proof {
            assert(type_annotations_view(v@) =~= before.push(av));
            if let Ok((xs, end)) = type_annotations_from(b, reader.position() as int, (n - i - 1) as nat, pool@, target) {
                assert(before + (seq![av] + xs) =~= type_annotations_view(v@) + xs);
            }
        }
        i = i + 1;
    }
    proof {
        assert(type_annotations_view(v@) + Seq::<TypeAnnotationModel<TargetInfoClass>>::empty() =~= type_annotations_view(v@));
    }
    Ok(v)
}

/// Reads the contents of a type annotations attribute of a field: a two-byte
/// count, then the type annotations.
pub fn read_field_type_annotations(reader: &mut ClassReader, pool: &PoolRead) -> (r: Result<Vec<TypeAnnotation<TargetInfoField>>, Error>)
    ensures
        final(reader).data() == old(reader).data(),
        match read_type_annotations_at(old(reader).data(), old(reader).position() as int, pool@, field_target()) {
            Ok((v, end)) => r matches Ok(x) && type_annotations_view(x@) == v && final(reader).position() == end,
            Err(e) => r is Err && r->Err_0 == e,
        },
{
    let ghost b = reader.data();
    let ghost target = field_target();
    let n = reader.read_u16()?;
    let ghost whole = type_annotations_from(b, reader.position() as int, n as nat, pool@, target);
    let mut v: Vec<TypeAnnotation<TargetInfoField>> = Vec::new();
    let mut i: u16 = 0;
    assert(whole == prepend_list(type_annotations_view(v@), whole)) by {
        if let Ok((xs, end)) = whole {
            assert(type_annotations_view(v@) + xs =~= xs);
        }
    }
    while i < n
        invariant
            reader.data() == b,
            b == old(reader).data(),
            target == field_target(),
            i <= n,
            whole == read_type_annotations_at(old(reader).data(), old(reader).position() as int, pool@, field_target()),
            whole == prepend_list(type_annotations_view(v@), type_annotations_from(b, reader.position() as int,
                (n - i) as nat, pool@, target)),
        decreases n - i,
    {
        let type_reference = match TargetInfoField::read_type_reference(reader) {
            Ok(x) => x,
            Err(e) => { return Err(e); },
        };
        let type_path = match read_type_path(reader) {
            Ok(x) => x,
            Err(e) => { return Err(e); },
        };
        let annotation = match read_annotation(reader, pool, Ghost(b.len())) {
            Ok(x) => x,
            Err(e) => { return Err(e); },
        };
        let a = TypeAnnotation { type_reference, type_path, annotation };
        let ghost before = type_annotations_view(v@);
        let ghost av = a@;
        v.push(a);
        proof {
            assert(type_annotations_view(v@) =~= before.push(av));
            if let Ok((xs, end)) = type_annotations_from(b, reader.position() as int, (n - i - 1) as nat, pool@, target) {
                assert(before + (seq![av] + xs) =~= type_annotations_view(v@) + xs);
            }
        }
        i = i + 1;
    }
    proof {
        assert(type_annotations_view(v@) + Seq::<TypeAnnotationModel<TargetInfoField>>::empty() =~= type_annotations_view(v@));
    }
    Ok(v)
}

/// Reads the contents of a type annotations attribute of a method: a two-byte
/// count, then the type annotations.
pub fn read_method_type_annotations(reader: &mut ClassReader, pool: &PoolRead) -> (r: Result<Vec<TypeAnnotation<TargetInfoMethod>>, Error>)
    ensures
        final(reader).data() == old(reader).data(),
        match read_type_annotations_at(old(reader).data(), old(reader).position() as int, pool@, method_target()) {
            Ok((v, end)) => r matches Ok(x) && type_annotations_view(x@) == v && final(reader).position() == end,
            Err(e) => r is Err && r->Err_0 == e,
        },
{
    let ghost b = reader.data();
    let ghost target = method_target();
    let n = reader.read_u16()?;
    let ghost whole = type_annotations_from(b, reader.position() as int, n as nat, pool@, target);
    let mut v: Vec<TypeAnnotation<TargetInfoMethod>> = Vec::new();
    let mut i: u16 = 0;
    assert(whole == prepend_list(type_annotations_view(v@), whole)) by {
        if let Ok((xs, end)) = whole {
            assert(type_annotations_view(v@) + xs =~= xs);
        }
    }
    while i < n
        invariant
            reader.data() == b,
            b == old(reader).data(),
            target == method_target(),
            i <= n,
            whole == read_type_annotations_at(old(reader).data(), old(reader).position() as int, pool@, method_target()),
            whole == prepend_list(type_annotations_view(v@), type_annotations_from(b, reader.position() as int,
                (n - i) as nat, pool@, target)),
        decreases n - i,
    {
        let type_reference = match TargetInfoMethod::read_type_reference(reader) {
            Ok(x) => x,
            Err(e) => { return Err(e); },
        };
        let type_path = match read_type_path(reader) {
            Ok(x) => x,
            Err(e) => { return Err(e); },
        };
        let annotation = match read_annotation(reader, pool, Ghost(b.len())) {
            Ok(x) => x,
            Err(e) => { return Err(e); },
        };
        let a = TypeAnnotation { type_reference, type_path, annotation };
        let ghost before = type_annotations_view(v@);
        let ghost av = a@;
        v.push(a);
        proof {
            assert(type_annotations_view(v@) =~= before.push(av));
            if let Ok((xs, end)) = type_annotations_from(b, reader.position() as int, (n - i - 1) as nat, pool@, target) {
                assert(before + (seq![av] + xs) =~= type_annotations_view(v@) + xs);
            }
        }
        i = i + 1;
    }
    proof {
        assert(type_annotations_view(v@) + Seq::<TypeAnnotationModel<TargetInfoMethod>>::empty() =~= type_annotations_view(v@));
    }
    Ok(v)
}

/// The tags of element values, as the JVMS gives them: `B` byte, `C` char,
/// `D` double, `F` float, `I` int, `J` long, `S` short, `Z` boolean, `s`
/// string, `e` enum constant, `c` class literal, `@` nested annotation, `[`
/// array; any other tag is refused.
pub proof fn lemma_element_value_tags(b: Seq<u8>, pos: int, p: Seq<Option<EntryModel>>, d: nat)
    requires
        0 <= pos < b.len(),
        d >= 1,
    ensures
        ({
            let r = value_at(b, pos, p, d);
            let t = b[pos];
            &&& t == 0x42 ==> (r matches Ok((v, _)) ==> v matches ValueModel::Object(ObjectModel::Byte(_)))
            &&& t == 0x43 ==> (r matches Ok((v, _)) ==> v matches ValueModel::Object(ObjectModel::Char(_)))
            &&& t == 0x44 ==> (r matches Ok((v, _)) ==> v matches ValueModel::Object(ObjectModel::Double(_)))
            &&& t == 0x46 ==> (r matches Ok((v, _)) ==> v matches ValueModel::Object(ObjectModel::Float(_)))
            &&& t == 0x49 ==> (r matches Ok((v, _)) ==> v matches ValueModel::Object(ObjectModel::Integer(_)))
            &&& t == 0x4A ==> (r matches Ok((v, _)) ==> v matches ValueModel::Object(ObjectModel::Long(_)))
            &&& t == 0x53 ==> (r matches Ok((v, _)) ==> v matches ValueModel::Object(ObjectModel::Short(_)))
            &&& t == 0x5A ==> (r matches Ok((v, _)) ==> v matches ValueModel::Object(ObjectModel::Boolean(_)))
            &&& t == 0x73 ==> (r matches Ok((v, _)) ==> v matches ValueModel::Object(ObjectModel::String(_)))
            &&& t == 0x65 ==> (r matches Ok((v, _)) ==> v is Enum)
            &&& t == 0x63 ==> (r matches Ok((v, _)) ==> v is Class)
            &&& t == 0x40 ==> (r matches Ok((v, _)) ==> v is Annotation)
            &&& t == 0x5B ==> (r matches Ok((v, _)) ==> v is Array)
            &&& !(t == 0x42 || t == 0x43 || t == 0x44 || t == 0x46 || t == 0x49 || t == 0x4A || t == 0x53
                || t == 0x5A || t == 0x73 || t == 0x65 || t == 0x63 || t == 0x40 || t == 0x5B)
                ==> r == Err::<(ValueModel, int), Error>(Error::UnknownTag)
        }),
{
}

} // verus!

