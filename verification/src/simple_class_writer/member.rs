//! Writing the fields of a class, adding the constant pool entries they refer to.
use vstd::prelude::*;
use crate::bytes::{u16_bytes, u32_bytes, write_u16, write_u32, write_usize_as_u16, write_usize_as_u32, write_u8_slice};
use crate::class_reader::code_attribute::attribute_name;
use crate::class_reader::pool::EntryModel;
use crate::error::Error;
use crate::jstring::JavaString;
use crate::simple_class_writer::module::{WriteState, put_index, write_each, lemma_write_each_step};
use crate::simple_class_writer::pool::{PoolWrite, pool_slots, extends, put_utf8_spec, put_constant_spec,
    lemma_extends_trans};
use crate::tree::attribute::{Attribute, AttributeModel};
use crate::tree::field::field_access_bits;
use crate::tree::member::{Field, FieldModel};
use crate::tree::record::{RecordComponent, RecordModel};
use crate::tree::annotation::{Annotation, AnnotationModel, annotations_view};
use crate::simple_class_writer::annotation::{write_annotations, write_annotations_spec};

verus! {

/// Writing the name index and the length of an attribute.
pub open spec fn attr_header(st: WriteState, name: Seq<u32>, length: u32) -> Result<WriteState, Error> {
    match put_index(st.0, put_utf8_spec(st.1, name)) {
        Ok((b, es)) => Ok((b + u32_bytes(length), es)),
        Err(e) => Err(e),
    }
}

/// Writing an attribute whose contents are one pool index, which adding an
/// entry with `put` gives.
pub open spec fn index_attr(st: WriteState, name: Seq<u32>,
    put: spec_fn(Seq<EntryModel>) -> (Result<u16, Error>, Seq<EntryModel>)) -> Result<WriteState, Error>
{
    match attr_header(st, name, 2) {
        Ok((b, es)) => put_index(b, put(es)),
        Err(e) => Err(e),
    }
}

/// One more attribute written with `f`, counted.
pub open spec fn then_attr(s: Result<(WriteState, nat), Error>, f: spec_fn(WriteState) -> Result<WriteState, Error>)
    -> Result<(WriteState, nat), Error>
{
    match s {
        Ok((st, n)) => match f(st) {
            Ok(st2) => Ok((st2, n + 1)),
            Err(e) => Err(e),
        },
        Err(e) => Err(e),
    }
}

/// Writing an attribute kept as it was read: its name index, its length and its bytes.
pub open spec fn unknown_attr_writer() -> spec_fn(WriteState, AttributeModel) -> Result<WriteState, Error> {
    |st: WriteState, a: AttributeModel| match put_index(st.0, put_utf8_spec(st.1, a.name)) {
        Ok((b, es)) => if a.bytes.len() > u32::MAX {
            Err(Error::ValueTooLarge)
        } else {
            Ok((b + u32_bytes(a.bytes.len() as u32) + a.bytes, es))
        },
        Err(e) => Err(e),
    }
}

/// The attributes kept as they were read, counted.
pub open spec fn unknown_attrs(s: Result<(WriteState, nat), Error>, attrs: Seq<AttributeModel>) -> Result<(WriteState, nat), Error> {
    match s {
        Ok((st, n)) => match write_each(Ok(st), attrs, unknown_attr_writer()) {
            Ok(st2) => Ok((st2, n + attrs.len())),
            Err(e) => Err(e),
        },
        Err(e) => Err(e),
    }
}

/// Writing an attribute whose contents `content` writes on their own, after
/// which the name index, the length and the contents are written.
pub open spec fn buffered_attr(st: WriteState, name: Seq<u32>, content: spec_fn(WriteState) -> Result<WriteState, Error>)
    -> Result<WriteState, Error>
{
    match content((Seq::empty(), st.1)) {
        Ok((cb, es1)) => match put_index(st.0, put_utf8_spec(es1, name)) {
            Ok((b2, es2)) => if cb.len() > u32::MAX {
                Err(Error::ValueTooLarge)
            } else {
                Ok((b2 + u32_bytes(cb.len() as u32) + cb, es2))
            },
            Err(e) => Err(e),
        },
        Err(e) => Err(e),
    }
}

/// Writing an annotations attribute named `name` if there are annotations.
pub open spec fn annotations_attr(s: Result<(WriteState, nat), Error>, name: Seq<u32>, xs: Seq<AnnotationModel>)
    -> Result<(WriteState, nat), Error>
{
    if xs.len() == 0 {
        s
    } else {
        then_attr(s, |st: WriteState| buffered_attr(st, name, |cs: WriteState| write_annotations_spec(cs, xs)))
    }
}

/// Writing the attributes of a field after `st`, in order, and counting them:
/// `Deprecated`, `Synthetic`, `ConstantValue`, `Signature`, the annotations,
/// then the attributes kept as they were read.
pub open spec fn field_attrs_from(st: WriteState, f: FieldModel) -> Result<(WriteState, nat), Error> {
    let s0: Result<(WriteState, nat), Error> = Ok((st, 0));
    let s1 = if f.has_deprecated_attribute {
        then_attr(s0, |st: WriteState| attr_header(st, attribute_name("Deprecated"), 0))
    } else {
        s0
    };
    let s2 = if f.has_synthetic_attribute {
        then_attr(s1, |st: WriteState| attr_header(st, attribute_name("Synthetic"), 0))
    } else {
        s1
    };
    let s3 = match f.constant_value {
        Some(c) => then_attr(s2, |st: WriteState| index_attr(st, attribute_name("ConstantValue"),
            |es: Seq<EntryModel>| put_constant_spec(es, c))),
        None => s2,
    };
    let s4 = match f.signature {
        Some(s) => then_attr(s3, |st: WriteState| index_attr(st, attribute_name("Signature"),
            |es: Seq<EntryModel>| put_utf8_spec(es, s))),
        None => s3,
    };
    let s5 = annotations_attr(s4, attribute_name("RuntimeVisibleAnnotations"), f.runtime_visible_annotations);
    let s6 = annotations_attr(s5, attribute_name("RuntimeInvisibleAnnotations"), f.runtime_invisible_annotations);
    unknown_attrs(s6, f.attributes)
}

/// The attributes of a field, written on their own, and their number.
pub open spec fn field_attrs_spec(es: Seq<EntryModel>, f: FieldModel) -> Result<(WriteState, nat), Error> {
    field_attrs_from((Seq::empty(), es), f)
}

/// Writing a field: its access flags, the indices of its name and descriptor,
/// the number of its attributes, then the attributes.
pub open spec fn write_field_spec(st: WriteState, f: FieldModel) -> Result<WriteState, Error> {
    match put_utf8_spec(st.1, f.name) {
        (Ok(ni), es1) => match put_utf8_spec(es1, f.descriptor) {
            (Ok(di), es2) => match field_attrs_spec(es2, f) {
                Ok(((buf, es3), n)) => if n > 0xFFFF {
                    Err(Error::ValueTooLarge)
                } else {
                    Ok((st.0 + u16_bytes(field_access_bits(f.access)) + u16_bytes(ni) + u16_bytes(di)
                        + u16_bytes(n as u16) + buf, es3))
                },
                Err(e) => Err(e),
            },
            (Err(e), _) => Err(e),
        },
        (Err(e), _) => Err(e),
    }
}

/// Writes the name index and the length of an attribute.
fn write_attr_header(w: &mut Vec<u8>, pool: &mut PoolWrite, name: &str, length: u32) -> (r: Result<(), Error>)
    requires
        old(pool).wf(),
    ensures
        final(pool).wf(),
        extends(pool_slots(old(pool)@), pool_slots(final(pool)@)),
        match attr_header((old(w)@, old(pool)@), attribute_name(name), length) {
            Ok((b, es)) => r is Ok && final(w)@ == b && final(pool)@ == es,
            Err(e) => r == Err::<(), Error>(e),
        },
{
    let i = pool.put_utf8(&JavaString::from_str(name))?;
    write_u16(w, i);
    write_u32(w, length);
    Ok(())
}

/// Writes an annotations attribute named `name`: the annotations are written
/// on their own first, then the name index, the length and the contents.
fn write_annotations_attr(w: &mut Vec<u8>, pool: &mut PoolWrite, name: &str, annotations: &Vec<Annotation>)
    -> (r: Result<(), Error>)
    requires
        old(pool).wf(),
    ensures
        final(pool).wf(),
        extends(pool_slots(old(pool)@), pool_slots(final(pool)@)),
        match buffered_attr((old(w)@, old(pool)@), attribute_name(name),
            |cs: WriteState| write_annotations_spec(cs, annotations_view(annotations@))) {
            Ok((b, es)) => r is Ok && final(w)@ == b && final(pool)@ == es,
            Err(e) => r == Err::<(), Error>(e),
        },
{
    let ghost p0 = pool@;
    let mut contents: Vec<u8> = Vec::new();
    write_annotations(&mut contents, pool, annotations)?;
    let ghost p1 = pool@;
    let i = pool.put_utf8(&JavaString::from_str(name))?;
    proof {
        lemma_extends_trans(pool_slots(p0), pool_slots(p1), pool_slots(pool@));
    }
    write_u16(w, i);
    write_usize_as_u32(w, contents.len())?;
    write_u8_slice(w, contents.as_slice());
    Ok(())
}

/// Writes an attribute kept as it was read: its name index, its length and its bytes.
fn write_unknown_attr(w: &mut Vec<u8>, pool: &mut PoolWrite, a: &Attribute) -> (r: Result<(), Error>)
    requires
        old(pool).wf(),
    ensures
        final(pool).wf(),
        extends(pool_slots(old(pool)@), pool_slots(final(pool)@)),
        match unknown_attr_writer()((old(w)@, old(pool)@), a@) {
            Ok((b, es)) => r is Ok && final(w)@ == b && final(pool)@ == es,
            Err(e) => r == Err::<(), Error>(e),
        },
{
    let index = pool.put_utf8(&a.name)?;
    write_u16(w, index);
    write_usize_as_u32(w, a.bytes.len())?;
    write_u8_slice(w, a.bytes.as_slice());
    Ok(())
}

/// Writes the attributes kept as they were read, each with its name index,
/// length and bytes.
fn write_unknown_attrs(w: &mut Vec<u8>, pool: &mut PoolWrite, attributes: &Vec<Attribute>) -> (r: Result<(), Error>)
    requires
        old(pool).wf(),
    ensures
        final(pool).wf(),
        extends(pool_slots(old(pool)@), pool_slots(final(pool)@)),
        match write_each(Ok((old(w)@, old(pool)@)), attributes@.map_values(|a: Attribute| a@), unknown_attr_writer()) {
            Ok((b, es)) => r is Ok && final(w)@ == b && final(pool)@ == es,
            Err(e) => r == Err::<(), Error>(e),
        },
{
    let ghost f = unknown_attr_writer();
    let ghost v = attributes@.map_values(|a: Attribute| a@);
    let mut i: usize = 0;
    assert(v.skip(0) =~= v);
    while i < attributes.len()
        invariant
            pool.wf(),
            extends(pool_slots(old(pool)@), pool_slots(pool@)),
            f == unknown_attr_writer(),
            v == attributes@.map_values(|a: Attribute| a@),
            i <= attributes@.len(),
            write_each(Ok((old(w)@, old(pool)@)), v, f) == write_each(Ok::<WriteState, Error>((w@, pool@)), v.skip(i as int), f),
        decreases attributes@.len() - i,
    {
        proof {
            lemma_write_each_step((w@, pool@), v, i as int, f);
        }
        let ghost p0 = pool@;
        match write_unknown_attr(w, pool, &attributes[i]) {
            Ok(()) => {},
            Err(e) => {
                return Err(e);
            },
        }
        proof {
            lemma_extends_trans(pool_slots(old(pool)@), pool_slots(p0), pool_slots(pool@));
        }
        i = i + 1;
    }
    assert(v.skip(attributes@.len() as int) =~= Seq::<AttributeModel>::empty());
    Ok(())
}

/// Writes a field: its access flags, the indices of its name and descriptor,
/// then its attributes, adding the entries they refer to to `pool`.
#[verifier::rlimit(40)]
pub fn write_field(w: &mut Vec<u8>, pool: &mut PoolWrite, field: &Field) -> (r: Result<(), Error>)
    requires
        old(pool).wf(),
    ensures
        final(pool).wf(),
        extends(pool_slots(old(pool)@), pool_slots(final(pool)@)),
        match write_field_spec((old(w)@, old(pool)@), field@) {
            Ok((b, es)) => r is Ok && final(w)@ == b && final(pool)@ == es,
            Err(e) => r == Err::<(), Error>(e),
        },
{
    let ghost f = field@;
    let ghost es0 = pool@;
    let name_index = pool.put_utf8(field.name.as_inner())?;
    let ghost es1 = pool@;
    let descriptor_index = pool.put_utf8(field.descriptor.as_inner())?;
    let ghost es2 = pool@;
    proof {
        lemma_extends_trans(pool_slots(es0), pool_slots(es1), pool_slots(es2));
    }
    let mut count: usize = 0;
    let mut buffer: Vec<u8> = Vec::new();
    let ghost s0: Result<(WriteState, nat), Error> = Ok(((Seq::empty(), es2), 0));
    let ghost s1 = if f.has_deprecated_attribute {
        then_attr(s0, |st: WriteState| attr_header(st, attribute_name("Deprecated"), 0))
    } else {
        s0
    };
    if field.has_deprecated_attribute {
        write_attr_header(&mut buffer, pool, "Deprecated", 0)?;
        count = count + 1;
    }
    assert(s1 == Ok::<(WriteState, nat), Error>(((buffer@, pool@), count as nat)));
    let ghost es3 = pool@;
    proof {
        lemma_extends_trans(pool_slots(es0), pool_slots(es2), pool_slots(es3));
    }
    let ghost s2 = if f.has_synthetic_attribute {
        then_attr(s1, |st: WriteState| attr_header(st, attribute_name("Synthetic"), 0))
    } else {
        s1
    };
    if field.has_synthetic_attribute {
        write_attr_header(&mut buffer, pool, "Synthetic", 0)?;
        count = count + 1;
    }
    assert(s2 == Ok::<(WriteState, nat), Error>(((buffer@, pool@), count as nat)));
    let ghost es4 = pool@;
    proof {
        lemma_extends_trans(pool_slots(es0), pool_slots(es3), pool_slots(es4));
    }
    let ghost s3 = match f.constant_value {
        Some(c) => then_attr(s2, |st: WriteState| index_attr(st, attribute_name("ConstantValue"),
            |es: Seq<EntryModel>| put_constant_spec(es, c))),
        None => s2,
    };
    if let Some(c) = &field.constant_value {
        write_attr_header(&mut buffer, pool, "ConstantValue", 2)?;
        let ghost es5 = pool@;
        let index = pool.put_constant_value(c)?;
        proof {
            lemma_extends_trans(pool_slots(es4), pool_slots(es5), pool_slots(pool@));
        }
        write_u16(&mut buffer, index);
        count = count + 1;
    }
    assert(s3 == Ok::<(WriteState, nat), Error>(((buffer@, pool@), count as nat)));
    let ghost es6 = pool@;
    proof {
        lemma_extends_trans(pool_slots(es0), pool_slots(es4), pool_slots(es6));
    }
    let ghost s4 = match f.signature {
        Some(s) => then_attr(s3, |st: WriteState| index_attr(st, attribute_name("Signature"),
            |es: Seq<EntryModel>| put_utf8_spec(es, s))),
        None => s3,
    };
    if let Some(s) = &field.signature {
        write_attr_header(&mut buffer, pool, "Signature", 2)?;
        let ghost es7 = pool@;
        let index = pool.put_utf8(s.as_inner())?;
        proof {
            lemma_extends_trans(pool_slots(es6), pool_slots(es7), pool_slots(pool@));
        }
        write_u16(&mut buffer, index);
        count = count + 1;
    }
    assert(s4 == Ok::<(WriteState, nat), Error>(((buffer@, pool@), count as nat)));
    let ghost es8a = pool@;
    proof {
        lemma_extends_trans(pool_slots(es0), pool_slots(es6), pool_slots(es8a));
    }
    let ghost s5 = annotations_attr(s4, attribute_name("RuntimeVisibleAnnotations"), f.runtime_visible_annotations);
    if field.runtime_visible_annotations.len() > 0 {
        write_annotations_attr(&mut buffer, pool, "RuntimeVisibleAnnotations", &field.runtime_visible_annotations)?;
        count = count + 1;
    }
    assert(s5 == Ok::<(WriteState, nat), Error>(((buffer@, pool@), count as nat)));
    let ghost es8b = pool@;
    proof {
        lemma_extends_trans(pool_slots(es0), pool_slots(es8a), pool_slots(es8b));
    }
    let ghost s6 = annotations_attr(s5, attribute_name("RuntimeInvisibleAnnotations"), f.runtime_invisible_annotations);
    if field.runtime_invisible_annotations.len() > 0 {
        write_annotations_attr(&mut buffer, pool, "RuntimeInvisibleAnnotations", &field.runtime_invisible_annotations)?;
        count = count + 1;
    }
    assert(s6 == Ok::<(WriteState, nat), Error>(((buffer@, pool@), count as nat)));
    let ghost es8 = pool@;
    proof {
        lemma_extends_trans(pool_slots(es0), pool_slots(es8b), pool_slots(es8));
    }
    write_unknown_attrs(&mut buffer, pool, &field.attributes)?;
    proof {
        lemma_extends_trans(pool_slots(es0), pool_slots(es8), pool_slots(pool@));
    }
    assert(field_attrs_spec(es2, f) == Ok::<(WriteState, nat), Error>(((buffer@, pool@),
        (count + field.attributes@.len()) as nat)));
    if count > usize::MAX - field.attributes.len() {
        return Err(Error::ValueTooLarge);
    }
    let count = count + field.attributes.len();
    write_u16(w, u16::from(field.access));
    write_u16(w, name_index);
    write_u16(w, descriptor_index);
    write_usize_as_u16(w, count)?;
    write_u8_slice(w, buffer.as_slice());
    Ok(())
}

/// Writing the attributes of a record component after `st`, in order, and
/// counting them: `Signature`, the annotations, then the attributes kept as
/// they were read.
pub open spec fn record_attrs_from(st: WriteState, c: RecordModel) -> Result<(WriteState, nat), Error> {
    let s0: Result<(WriteState, nat), Error> = Ok((st, 0));
    let s1 = match c.signature {
        Some(s) => then_attr(s0, |st: WriteState| index_attr(st, attribute_name("Signature"),
            |es: Seq<EntryModel>| put_utf8_spec(es, s))),
        None => s0,
    };
    let s2 = annotations_attr(s1, attribute_name("RuntimeVisibleAnnotations"), c.runtime_visible_annotations);
    let s3 = annotations_attr(s2, attribute_name("RuntimeInvisibleAnnotations"), c.runtime_invisible_annotations);
    unknown_attrs(s3, c.attributes)
}

/// Writing a record component: the indices of its name and descriptor, the
/// number of its attributes, then the attributes.
pub open spec fn write_record_spec(st: WriteState, c: RecordModel) -> Result<WriteState, Error> {
    match put_utf8_spec(st.1, c.name) {
        (Ok(ni), es1) => match put_utf8_spec(es1, c.descriptor) {
            (Ok(di), es2) => match record_attrs_from((Seq::empty(), es2), c) {
                Ok(((buf, es3), n)) => if n > 0xFFFF {
                    Err(Error::ValueTooLarge)
                } else {
                    Ok((st.0 + u16_bytes(ni) + u16_bytes(di) + u16_bytes(n as u16) + buf, es3))
                },
                Err(e) => Err(e),
            },
            (Err(e), _) => Err(e),
        },
        (Err(e), _) => Err(e),
    }
}

/// Writes a record component: the indices of its name and descriptor, then
/// its attributes, adding the entries they refer to to `pool`.
#[verifier::rlimit(40)]
pub fn write_record_component(w: &mut Vec<u8>, pool: &mut PoolWrite, component: &RecordComponent) -> (r: Result<(), Error>)
    requires
        old(pool).wf(),
    ensures
        final(pool).wf(),
        extends(pool_slots(old(pool)@), pool_slots(final(pool)@)),
        match write_record_spec((old(w)@, old(pool)@), component@) {
            Ok((b, es)) => r is Ok && final(w)@ == b && final(pool)@ == es,
            Err(e) => r == Err::<(), Error>(e),
        },
{
    let ghost c = component@;
    let ghost es0 = pool@;
    let name_index = pool.put_utf8(component.name.as_inner())?;
    let ghost es1 = pool@;
    let descriptor_index = pool.put_utf8(component.descriptor.as_inner())?;
    let ghost es2 = pool@;
    proof {
        lemma_extends_trans(pool_slots(es0), pool_slots(es1), pool_slots(es2));
    }
    let mut count: usize = 0;
    let mut buffer: Vec<u8> = Vec::new();
    let ghost s0: Result<(WriteState, nat), Error> = Ok(((Seq::empty(), es2), 0));
    let ghost s1 = match c.signature {
        Some(s) => then_attr(s0, |st: WriteState| index_attr(st, attribute_name("Signature"),
            |es: Seq<EntryModel>| put_utf8_spec(es, s))),
        None => s0,
    };
    if let Some(s) = &component.signature {
        write_attr_header(&mut buffer, pool, "Signature", 2)?;
        let ghost es3 = pool@;
        let index = pool.put_utf8(s.as_inner())?;
        proof {
            lemma_extends_trans(pool_slots(es2), pool_slots(es3), pool_slots(pool@));
        }
        write_u16(&mut buffer, index);
        count = count + 1;
    }
    assert(s1 == Ok::<(WriteState, nat), Error>(((buffer@, pool@), count as nat)));
    let ghost es4 = pool@;
    proof {
        lemma_extends_trans(pool_slots(es0), pool_slots(es2), pool_slots(es4));
    }
    let ghost s2 = annotations_attr(s1, attribute_name("RuntimeVisibleAnnotations"), c.runtime_visible_annotations);
    if component.runtime_visible_annotations.len() > 0 {
        write_annotations_attr(&mut buffer, pool, "RuntimeVisibleAnnotations", &component.runtime_visible_annotations)?;
        count = count + 1;
    }
    assert(s2 == Ok::<(WriteState, nat), Error>(((buffer@, pool@), count as nat)));
    let ghost es5 = pool@;
    proof {
        lemma_extends_trans(pool_slots(es0), pool_slots(es4), pool_slots(es5));
    }
    let ghost s3 = annotations_attr(s2, attribute_name("RuntimeInvisibleAnnotations"), c.runtime_invisible_annotations);
    if component.runtime_invisible_annotations.len() > 0 {
        write_annotations_attr(&mut buffer, pool, "RuntimeInvisibleAnnotations", &component.runtime_invisible_annotations)?;
        count = count + 1;
    }
    assert(s3 == Ok::<(WriteState, nat), Error>(((buffer@, pool@), count as nat)));
    let ghost es6 = pool@;
    proof {
        lemma_extends_trans(pool_slots(es0), pool_slots(es5), pool_slots(es6));
    }
    write_unknown_attrs(&mut buffer, pool, &component.attributes)?;
    proof {
        lemma_extends_trans(pool_slots(es0), pool_slots(es6), pool_slots(pool@));
    }
    assert(record_attrs_from((Seq::empty(), es2), c) == Ok::<(WriteState, nat), Error>(((buffer@, pool@),
        (count + component.attributes@.len()) as nat)));
    if count > usize::MAX - component.attributes.len() {
        return Err(Error::ValueTooLarge);
    }
    let count = count + component.attributes.len();
    write_u16(w, name_index);
    write_u16(w, descriptor_index);
    write_usize_as_u16(w, count)?;
    write_u8_slice(w, buffer.as_slice());
    Ok(())
}

} // verus!
