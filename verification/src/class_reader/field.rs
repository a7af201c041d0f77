//! Reading the fields of a class.
use vstd::prelude::*;
use crate::bytes::{ClassReader, be_u16, be_u32};
use crate::class_reader::annotation::{read_annotations, read_annotations_at};
use crate::class_reader::code_attribute::attribute_name;
use crate::tree::annotation::annotations_view;
use crate::class_reader::method::{MemberRead, skip_member_attr};
use crate::class_reader::module::index_then;
use crate::class_reader::pool::{EntryModel, PoolEntry, PoolRead, pool_get, pool_utf8, string_of};
use crate::error::Error;
use crate::tree::attribute::{Attribute, AttributeModel};
use crate::tree::descriptor::valid_field_descriptor;
use crate::tree::field::{FieldAccess, FieldDescriptor, FieldName, FieldSignature, field_access_of};
use crate::tree::member::{ConstantModel, ConstantValue, Field, FieldModel, new_field};
use crate::tree::names::valid_unqualified_name;
use crate::visitor::FieldInterests;

verus! {

/// The constant at `i`, for a `ConstantValue` attribute: an `Integer`,
/// `Float`, `Long`, `Double` or `String` entry.
pub open spec fn pool_constant(p: Seq<Option<EntryModel>>, i: u16) -> Result<ConstantModel, Error> {
    match pool_get(p, i) {
        Err(x) => Err(x),
        Ok(e) => match e {
            EntryModel::Integer { bytes } => Ok(ConstantModel::Integer(bytes)),
            EntryModel::Float { bytes } => Ok(ConstantModel::Float(bytes)),
            EntryModel::Long { bytes } => Ok(ConstantModel::Long(bytes)),
            EntryModel::Double { bytes } => Ok(ConstantModel::Double(bytes)),
            EntryModel::String { .. } => match string_of(p, e) {
                Ok(s) => Ok(ConstantModel::String(s)),
                Err(x) => Err(x),
            },
            _ => Err(Error::WrongPoolEntry),
        },
    }
}

impl PoolRead {
    /// The constant at `index`, for a `ConstantValue` attribute.
    pub fn get_constant_value(&self, index: u16) -> (r: Result<ConstantValue, Error>)
        ensures
            match pool_constant(self@, index) {
                Ok(v) => r matches Ok(x) && x@ == v,
                Err(e) => r == Err::<ConstantValue, Error>(e),
            },
    {
        let entry = self.get(index)?;
        match entry {
            PoolEntry::Integer { bytes } => Ok(ConstantValue::Integer(*bytes)),
            PoolEntry::Float { bytes } => Ok(ConstantValue::Float(*bytes)),
            PoolEntry::Long { bytes } => Ok(ConstantValue::Long(*bytes)),
            PoolEntry::Double { bytes } => Ok(ConstantValue::Double(*bytes)),
            PoolEntry::String { .. } => Ok(ConstantValue::String(entry.as_string(self)?)),
            _ => Err(Error::WrongPoolEntry),
        }
    }
}

/// Whether a field attribute named `name` is one that is skipped: the type annotations.
pub open spec fn skipped_field_attr(name: Seq<u32>) -> bool {
    ||| name == attribute_name("RuntimeVisibleTypeAnnotations")
    ||| name == attribute_name("RuntimeInvisibleTypeAnnotations")
}

/// Reading the contents of the field attribute named `name`, `length` bytes
/// long, at `q`, into the field `st`.
pub open spec fn field_attr(b: Seq<u8>, q: int, length: int, name: Seq<u32>, p: Seq<Option<EntryModel>>,
    fi: FieldInterests, st: FieldModel) -> MemberRead<FieldModel>
{
    if name == attribute_name("Deprecated") {
        MemberRead::Read(FieldModel { has_deprecated_attribute: true, ..st }, q)
    } else if name == attribute_name("Synthetic") {
        MemberRead::Read(FieldModel { has_synthetic_attribute: true, ..st }, q)
    } else if name == attribute_name("ConstantValue") {
        if !fi.constant_value {
            skip_member_attr(st, q, length)
        } else {
            match index_then(b, q, pool_constant(p, be_u16(b, q))) {
                Ok((c, end)) => if st.constant_value is Some {
                    MemberRead::Fail(Error::DuplicateAttribute)
                } else {
                    MemberRead::Read(FieldModel { constant_value: Some(c), ..st }, end)
                },
                Err(e) => MemberRead::Fail(e),
            }
        }
    } else if name == attribute_name("Signature") {
        if !fi.signature {
            skip_member_attr(st, q, length)
        } else {
            match index_then(b, q, pool_utf8(p, be_u16(b, q))) {
                Ok((s, end)) => if st.signature is Some {
                    MemberRead::Fail(Error::DuplicateAttribute)
                } else {
                    MemberRead::Read(FieldModel { signature: Some(s), ..st }, end)
                },
                Err(e) => MemberRead::Fail(e),
            }
        }
    } else if name == attribute_name("RuntimeVisibleAnnotations") {
        if !fi.runtime_visible_annotations {
            skip_member_attr(st, q, length)
        } else {
            match read_annotations_at(b, q, p) {
                Ok((v, end)) => MemberRead::Read(FieldModel {
                    runtime_visible_annotations: st.runtime_visible_annotations + v,
                    ..st
                }, end),
                Err(e) => MemberRead::Fail(e),
            }
        }
    } else if name == attribute_name("RuntimeInvisibleAnnotations") {
        if !fi.runtime_invisible_annotations {
            skip_member_attr(st, q, length)
        } else {
            match read_annotations_at(b, q, p) {
                Ok((v, end)) => MemberRead::Read(FieldModel {
                    runtime_invisible_annotations: st.runtime_invisible_annotations + v,
                    ..st
                }, end),
                Err(e) => MemberRead::Fail(e),
            }
        }
    } else if skipped_field_attr(name) {
        skip_member_attr(st, q, length)
    } else if !fi.unknown_attributes {
        skip_member_attr(st, q, length)
    } else if q + length > b.len() {
        MemberRead::Fail(Error::UnexpectedEnd)
    } else {
        MemberRead::Read(FieldModel {
            attributes: st.attributes.push(AttributeModel { name, bytes: b.subrange(q, q + length) }),
            ..st
        }, q + length)
    }
}

/// Reading one field attribute at `pos`.
pub open spec fn field_attr_at(b: Seq<u8>, pos: int, p: Seq<Option<EntryModel>>, fi: FieldInterests, st: FieldModel)
    -> MemberRead<FieldModel>
{
    if pos + 2 > b.len() {
        MemberRead::Fail(Error::UnexpectedEnd)
    } else {
        match pool_utf8(p, be_u16(b, pos)) {
            Err(e) => MemberRead::Fail(e),
            Ok(name) => if pos + 6 > b.len() {
                MemberRead::Fail(Error::UnexpectedEnd)
            } else {
                field_attr(b, pos + 6, be_u32(b, pos + 2) as int, name, p, fi, st)
            },
        }
    }
}

/// Reading `n` field attributes from `pos` on.
pub open spec fn field_attrs(b: Seq<u8>, pos: int, n: int, p: Seq<Option<EntryModel>>, fi: FieldInterests, st: FieldModel)
    -> MemberRead<FieldModel>
    decreases n,
{
    if n <= 0 {
        MemberRead::Read(st, pos)
    } else {
        match field_attr_at(b, pos, p, fi, st) {
            MemberRead::Read(st2, next) => field_attrs(b, next, n - 1, p, fi, st2),
            other => other,
        }
    }
}

/// Reading a field at `pos`: its access flags, the index of its name (which
/// must be an unqualified name), the index of its descriptor (which must be a
/// valid field descriptor), then its attributes, as the interests ask.
pub open spec fn read_field_at(b: Seq<u8>, pos: int, p: Seq<Option<EntryModel>>, fi: FieldInterests) -> MemberRead<FieldModel> {
    if pos + 2 > b.len() || pos + 4 > b.len() {
        MemberRead::Fail(Error::UnexpectedEnd)
    } else {
        match pool_utf8(p, be_u16(b, pos + 2)) {
            Err(e) => MemberRead::Fail(e),
            Ok(name) => if !valid_unqualified_name(name) {
                MemberRead::Fail(Error::InvalidName)
            } else if pos + 6 > b.len() {
                MemberRead::Fail(Error::UnexpectedEnd)
            } else {
                match pool_utf8(p, be_u16(b, pos + 4)) {
                    Err(e) => MemberRead::Fail(e),
                    Ok(d) => if !valid_field_descriptor(d) {
                        MemberRead::Fail(Error::InvalidDescriptor)
                    } else if pos + 8 > b.len() {
                        MemberRead::Fail(Error::UnexpectedEnd)
                    } else {
                        field_attrs(b, pos + 8, be_u16(b, pos + 6) as int, p, fi, new_field(field_access_of(be_u16(b, pos)), name, d))
                    },
                }
            },
        }
    }
}

/// Reads one attribute of a field into `field`.
#[verifier::spinoff_prover]
#[verifier::rlimit(80)]
fn read_field_attribute(reader: &mut ClassReader, pool: &PoolRead, interests: &FieldInterests, field: Field)
    -> (r: Result<Field, Error>)
    ensures
        final(reader).data() == old(reader).data(),
        match field_attr_at(old(reader).data(), old(reader).position() as int, pool@, *interests, field@) {
            MemberRead::Read(f, next) => r matches Ok(x) && x@ == f && final(reader).position() == next,
            MemberRead::Fail(e) => r is Err && r->Err_0 == e,
            MemberRead::Excluded => false,
        },
{
    let name = pool.get_utf8(reader.read_u16()?)?;
    let length = reader.read_u32()?;
    let mut field = field;
    if name.equals_str("Deprecated") {
        field.has_deprecated_attribute = true;
        Ok(field)
    } else if name.equals_str("Synthetic") {
        field.has_synthetic_attribute = true;
        Ok(field)
    } else if name.equals_str("ConstantValue") {
        if !interests.constant_value {
            reader.skip(length as i64)?;
            Ok(field)
        } else {
            let value = pool.get_constant_value(reader.read_u16()?)?;
            if field.constant_value.is_some() {
                return Err(Error::DuplicateAttribute);
            }
            field.constant_value = Some(value);
            Ok(field)
        }
    } else if name.equals_str("Signature") {
        if !interests.signature {
            reader.skip(length as i64)?;
            Ok(field)
        } else {
            let signature = FieldSignature::from_inner_unchecked(pool.get_utf8(reader.read_u16()?)?);
            if field.signature.is_some() {
                return Err(Error::DuplicateAttribute);
            }
            field.signature = Some(signature);
            Ok(field)
        }
    } else if name.equals_str("RuntimeVisibleAnnotations") {
        if !interests.runtime_visible_annotations {
            reader.skip(length as i64)?;
            return Ok(field);
        }
        let mut annotations = read_annotations(reader, pool)?;
        let ghost before = field.runtime_visible_annotations@;
        let ghost added = annotations@;
        field.runtime_visible_annotations.append(&mut annotations);
        assert(annotations_view(field.runtime_visible_annotations@) =~= annotations_view(before) + annotations_view(added));
        Ok(field)
    } else if name.equals_str("RuntimeInvisibleAnnotations") {
        if !interests.runtime_invisible_annotations {
            reader.skip(length as i64)?;
            return Ok(field);
        }
        let mut annotations = read_annotations(reader, pool)?;
        let ghost before = field.runtime_invisible_annotations@;
        let ghost added = annotations@;
        field.runtime_invisible_annotations.append(&mut annotations);
        assert(annotations_view(field.runtime_invisible_annotations@) =~= annotations_view(before) + annotations_view(added));
        Ok(field)
    } else if name.equals_str("RuntimeVisibleTypeAnnotations") || name.equals_str("RuntimeInvisibleTypeAnnotations") {
        reader.skip(length as i64)?;
        Ok(field)
    } else if !interests.unknown_attributes {
        reader.skip(length as i64)?;
        Ok(field)
    } else {
        let bytes = reader.read_u8_vec(length as usize)?;
        let ghost before = field.attributes@.map_values(|a: Attribute| a@);
        let attribute = Attribute { name, bytes };
        let ghost av = attribute@;
        field.attributes.push(attribute);
        assert(field.attributes@.map_values(|a: Attribute| a@) =~= before.push(av));
        Ok(field)
    }
}

/// Reads a field: its access flags, name and descriptor, then its attributes
/// as `interests` asks.
///
/// Type annotations are skipped.
pub fn read_field(reader: &mut ClassReader, pool: &PoolRead, interests: &FieldInterests) -> (r: Result<Field, Error>)
    ensures
        final(reader).data() == old(reader).data(),
        match read_field_at(old(reader).data(), old(reader).position() as int, pool@, *interests) {
            MemberRead::Read(f, end) => r matches Ok(x) && x@ == f && final(reader).position() == end,
            MemberRead::Fail(e) => r is Err && r->Err_0 == e,
            MemberRead::Excluded => false,
        },
{
    let ghost b = reader.data();
    let access = FieldAccess::from(reader.read_u16()?);
    let name = FieldName::try_from(pool.get_utf8(reader.read_u16()?)?)?;
    let descriptor = FieldDescriptor::try_from(pool.get_utf8(reader.read_u16()?)?)?;
    let mut field = Field::new(access, name, descriptor);
    let n = reader.read_u16()?;
    let mut i: u16 = 0;
    let ghost whole = read_field_at(b, old(reader).position() as int, pool@, *interests);
    while i < n
        invariant
            reader.data() == b,
            b == old(reader).data(),
            i <= n,
            whole == read_field_at(old(reader).data(), old(reader).position() as int, pool@, *interests),
            whole == field_attrs(b, reader.position() as int, n - i, pool@, *interests, field@),
        decreases n - i,
    {
        field = match read_field_attribute(reader, pool, interests, field) {
            Ok(f) => f,
            Err(e) => { return Err(e); },
        };
        i = i + 1;
    }
    Ok(field)
}

/// Reading attributes never changes the access flags, name or descriptor.
#[verifier::spinoff_prover]
proof fn lemma_field_attrs_keep(b: Seq<u8>, pos: int, n: int, p: Seq<Option<EntryModel>>, fi: FieldInterests,
    st: FieldModel)
    ensures
        field_attrs(b, pos, n, p, fi, st) matches MemberRead::Read(f, _)
            ==> f.access == st.access && f.name == st.name && f.descriptor == st.descriptor,
    decreases n,
{
    if n > 0 {
        if let MemberRead::Read(st2, next) = field_attr_at(b, pos, p, fi, st) {
            lemma_field_attrs_keep(b, next, n - 1, p, fi, st2);
        }
    }
}

/// A field starts with its access flags (two bytes), the pool index of its
/// name (two bytes), then the pool index of its descriptor (two bytes).
pub proof fn lemma_field_header(b: Seq<u8>, pos: int, p: Seq<Option<EntryModel>>, fi: FieldInterests)
    requires
        0 <= pos,
        pos + 8 <= b.len(),
    ensures
        read_field_at(b, pos, p, fi) matches MemberRead::Read(f, _) ==> {
            &&& f.access == field_access_of((b[pos] * 256 + b[pos + 1]) as u16)
            &&& pool_utf8(p, (b[pos + 2] * 256 + b[pos + 3]) as u16) == Ok::<Seq<u32>, Error>(f.name)
            &&& pool_utf8(p, (b[pos + 4] * 256 + b[pos + 5]) as u16) == Ok::<Seq<u32>, Error>(f.descriptor)
        },
{
    assert(be_u16(b, pos) == b[pos] * 256 + b[pos + 1]);
    assert(be_u16(b, pos + 2) == b[pos + 2] * 256 + b[pos + 3]);
    assert(be_u16(b, pos + 4) == b[pos + 4] * 256 + b[pos + 5]);
    if let (Ok(name), Ok(d)) = (pool_utf8(p, be_u16(b, pos + 2)), pool_utf8(p, be_u16(b, pos + 4))) {
        lemma_field_attrs_keep(b, pos + 8, be_u16(b, pos + 6) as int, p, fi,
            new_field(field_access_of(be_u16(b, pos)), name, d));
    }
}

} // verus!

