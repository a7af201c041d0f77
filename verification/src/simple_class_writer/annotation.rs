//! Writing annotations and the values of their elements, adding the constant
//! pool entries they refer to.
use vstd::prelude::*;
use crate::bytes::{u16_bytes, write_u8, write_u16, write_usize_as_u16};
use crate::class_reader::annotation::{TAG_ANNOTATION, TAG_ARRAY, TAG_BOOLEAN, TAG_BYTE, TAG_CHAR, TAG_CLASS, TAG_DOUBLE,
    TAG_ENUM, TAG_FLOAT, TAG_INT, TAG_LONG, TAG_SHORT, TAG_STRING};
use crate::class_reader::pool::EntryModel;
use crate::error::Error;
use crate::simple_class_writer::module::{WriteState, put_index};
use crate::simple_class_writer::pool::{PoolWrite, extends, lemma_extends_trans, pool_slots, put_spec, put_utf8_spec, step};
use crate::tree::annotation::{Annotation, AnnotationModel, ElementValue, ElementValuePair, Object, ObjectModel,
    ValueModel, annotations_view, lemma_pairs_view_index, lemma_values_view_index, pairs_view, value_view, values_view};

verus! {

/// The tag of a constant.
pub open spec fn object_tag_of(o: ObjectModel) -> u8 {
    match o {
        ObjectModel::Byte(_) => TAG_BYTE,
        ObjectModel::Char(_) => TAG_CHAR,
        ObjectModel::Double(_) => TAG_DOUBLE,
        ObjectModel::Float(_) => TAG_FLOAT,
        ObjectModel::Integer(_) => TAG_INT,
        ObjectModel::Long(_) => TAG_LONG,
        ObjectModel::Short(_) => TAG_SHORT,
        ObjectModel::Boolean(_) => TAG_BOOLEAN,
        ObjectModel::String(_) => TAG_STRING,
    }
}

/// Adding the pool entry of a constant: a `byte`, `char`, `short` or
/// `boolean` as an `Integer` entry, a string as a `Utf8` entry.
pub open spec fn put_object_spec(es: Seq<EntryModel>, o: ObjectModel) -> (Result<u16, Error>, Seq<EntryModel>) {
    match o {
        ObjectModel::Byte(v) => step(es, put_spec(es, EntryModel::Integer { bytes: v as i32 })),
        ObjectModel::Char(v) => step(es, put_spec(es, EntryModel::Integer { bytes: v as i32 })),
        ObjectModel::Double(v) => step(es, put_spec(es, EntryModel::Double { bytes: v })),
        ObjectModel::Float(v) => step(es, put_spec(es, EntryModel::Float { bytes: v })),
        ObjectModel::Integer(v) => step(es, put_spec(es, EntryModel::Integer { bytes: v })),
        ObjectModel::Long(v) => step(es, put_spec(es, EntryModel::Long { bytes: v })),
        ObjectModel::Short(v) => step(es, put_spec(es, EntryModel::Integer { bytes: v as i32 })),
        ObjectModel::Boolean(v) => step(es, put_spec(es, EntryModel::Integer { bytes: if v { 1 } else { 0 } })),
        ObjectModel::String(s) => put_utf8_spec(es, s),
    }
}

/// Writing an element value: its tag, then what the tag asks.
pub open spec fn write_value_spec(st: WriteState, v: ValueModel) -> Result<WriteState, Error>
    decreases v, 0int,
{
    match v {
        ValueModel::Object(o) => put_index(st.0.push(object_tag_of(o)), put_object_spec(st.1, o)),
        ValueModel::Enum(t, c) => match put_index(st.0.push(TAG_ENUM), put_utf8_spec(st.1, t)) {
            Ok(s1) => put_index(s1.0, put_utf8_spec(s1.1, c)),
            Err(e) => Err(e),
        },
        ValueModel::Class(c) => put_index(st.0.push(TAG_CLASS), put_utf8_spec(st.1, c)),
        ValueModel::Annotation(a) => write_annotation_spec((st.0.push(TAG_ANNOTATION), st.1), a),
        ValueModel::Array(vs) => write_values_spec((st.0.push(TAG_ARRAY), st.1), vs),
    }
}

/// Writing each of the element values `vs`.
pub open spec fn write_each_value(st: WriteState, vs: Seq<ValueModel>) -> Result<WriteState, Error>
    decreases vs, 0int,
{
    if vs.len() == 0 {
        Ok(st)
    } else {
        match write_value_spec(st, vs[0]) {
            Ok(s1) => write_each_value(s1, vs.drop_first()),
            Err(e) => Err(e),
        }
    }
}

/// Writing the number of element values, then each of them.
pub open spec fn write_values_spec(st: WriteState, vs: Seq<ValueModel>) -> Result<WriteState, Error>
    decreases vs, 1int,
{
    if vs.len() > 0xFFFF {
        Err(Error::ValueTooLarge)
    } else {
        write_each_value((st.0 + u16_bytes(vs.len() as u16), st.1), vs)
    }
}

/// Writing each of the element-value pairs `ps`: the index of the name, then the value.
pub open spec fn write_each_pair(st: WriteState, ps: Seq<(Seq<u32>, ValueModel)>) -> Result<WriteState, Error>
    decreases ps, 0int,
{
    if ps.len() == 0 {
        Ok(st)
    } else {
        match put_index(st.0, put_utf8_spec(st.1, ps[0].0)) {
            Ok(s1) => match write_value_spec(s1, ps[0].1) {
                Ok(s2) => write_each_pair(s2, ps.drop_first()),
                Err(e) => Err(e),
            },
            Err(e) => Err(e),
        }
    }
}

/// Writing the number of element-value pairs, then each of them.
pub open spec fn write_pairs_spec(st: WriteState, ps: Seq<(Seq<u32>, ValueModel)>) -> Result<WriteState, Error>
    decreases ps, 1int,
{
    if ps.len() > 0xFFFF {
        Err(Error::ValueTooLarge)
    } else {
        write_each_pair((st.0 + u16_bytes(ps.len() as u16), st.1), ps)
    }
}

/// Writing an annotation: the index of its type, then its element-value pairs.
pub open spec fn write_annotation_spec(st: WriteState, a: AnnotationModel) -> Result<WriteState, Error>
    decreases a, 2int,
{
    match put_index(st.0, put_utf8_spec(st.1, a.annotation_type)) {
        Ok(s1) => write_pairs_spec(s1, a.pairs),
        Err(e) => Err(e),
    }
}

/// Writing each of the annotations `xs`.
pub open spec fn write_each_annotation(st: WriteState, xs: Seq<AnnotationModel>) -> Result<WriteState, Error>
    decreases xs.len(),
{
    if xs.len() == 0 {
        Ok(st)
    } else {
        match write_annotation_spec(st, xs[0]) {
            Ok(s1) => write_each_annotation(s1, xs.drop_first()),
            Err(e) => Err(e),
        }
    }
}

/// Writing the contents of an annotations attribute: the number of
/// annotations, then each of them.
pub open spec fn write_annotations_spec(st: WriteState, xs: Seq<AnnotationModel>) -> Result<WriteState, Error> {
    if xs.len() > 0xFFFF {
        Err(Error::ValueTooLarge)
    } else {
        write_each_annotation((st.0 + u16_bytes(xs.len() as u16), st.1), xs)
    }
}

/// Writes a constant: its tag, then the index of its pool entry.
fn write_object(w: &mut Vec<u8>, pool: &mut PoolWrite, o: &Object) -> (r: Result<(), Error>)
    requires
        old(pool).wf(),
    ensures
        final(pool).wf(),
        extends(pool_slots(old(pool)@), pool_slots(final(pool)@)),
        match put_index(old(w)@.push(object_tag_of(o@)), put_object_spec(old(pool)@, o@)) {
            Ok((b, es)) => r is Ok && final(w)@ == b && final(pool)@ == es,
            Err(e) => r == Err::<(), Error>(e),
        },
{
    let i = match o {
        Object::Byte(v) => {
            write_u8(w, TAG_BYTE);
            pool.put_byte_as_integer(*v)?
        },
        Object::Char(v) => {
            write_u8(w, TAG_CHAR);
            pool.put_char_as_integer(*v)?
        },
        Object::Double(v) => {
            write_u8(w, TAG_DOUBLE);
            pool.put_double(*v)?
        },
        Object::Float(v) => {
            write_u8(w, TAG_FLOAT);
            pool.put_float(*v)?
        },
        Object::Integer(v) => {
            write_u8(w, TAG_INT);
            pool.put_integer(*v)?
        },
        Object::Long(v) => {
            write_u8(w, TAG_LONG);
            pool.put_long(*v)?
        },
        Object::Short(v) => {
            write_u8(w, TAG_SHORT);
            pool.put_short_as_integer(*v)?
        },
        Object::Boolean(v) => {
            write_u8(w, TAG_BOOLEAN);
            pool.put_boolean_as_integer(*v)?
        },
        Object::String(v) => {
            write_u8(w, TAG_STRING);
            pool.put_utf8(v)?
        },
    };
    write_u16(w, i);
    Ok(())
}

/// Writes an element value: its tag, then what the tag asks.
fn write_value(w: &mut Vec<u8>, pool: &mut PoolWrite, v: &ElementValue) -> (r: Result<(), Error>)
    requires
        old(pool).wf(),
    ensures
        final(pool).wf(),
        extends(pool_slots(old(pool)@), pool_slots(final(pool)@)),
        match write_value_spec((old(w)@, old(pool)@), value_view(*v)) {
            Ok((b, es)) => r is Ok && final(w)@ == b && final(pool)@ == es,
            Err(e) => r == Err::<(), Error>(e),
        },
    decreases v, 0int,
{
    match v {
        ElementValue::Object(o) => write_object(w, pool, o),
        ElementValue::Enum { enum_type, const_name } => {
            write_u8(w, TAG_ENUM);
            let ghost p0 = pool@;
            let i = pool.put_utf8(enum_type.as_inner())?;
            write_u16(w, i);
            let ghost p1 = pool@;
            let j = pool.put_utf8(const_name)?;
            write_u16(w, j);
            proof {
                lemma_extends_trans(pool_slots(p0), pool_slots(p1), pool_slots(pool@));
            }
            Ok(())
        },
        ElementValue::Class(c) => {
            write_u8(w, TAG_CLASS);
            let i = pool.put_utf8(c.as_inner())?;
            write_u16(w, i);
            Ok(())
        },
        ElementValue::AnnotationInterface(a) => {
            write_u8(w, TAG_ANNOTATION);
            write_annotation(w, pool, a)
        },
        ElementValue::ArrayType(vs) => {
            write_u8(w, TAG_ARRAY);
            write_values(w, pool, vs)
        },
    }
}

/// Writes the number of element values, then each of them.
fn write_values(w: &mut Vec<u8>, pool: &mut PoolWrite, vs: &Vec<ElementValue>) -> (r: Result<(), Error>)
    requires
        old(pool).wf(),
    ensures
        final(pool).wf(),
        extends(pool_slots(old(pool)@), pool_slots(final(pool)@)),
        match write_values_spec((old(w)@, old(pool)@), values_view(vs@)) {
            Ok((b, es)) => r is Ok && final(w)@ == b && final(pool)@ == es,
            Err(e) => r == Err::<(), Error>(e),
        },
    decreases vs, 1int,
{
    let ghost m = values_view(vs@);
    proof {
        lemma_values_view_index(vs@);
    }
    write_usize_as_u16(w, vs.len())?;
    let mut i: usize = 0;
    assert(m.subrange(0, m.len() as int) =~= m);
    while i < vs.len()
        invariant
            pool.wf(),
            extends(pool_slots(old(pool)@), pool_slots(pool@)),
            m == values_view(vs@),
            m.len() == vs@.len(),
            forall|k: int| 0 <= k < vs@.len() ==> #[trigger] m[k] == value_view(vs@[k]),
            vs@.len() <= 0xFFFF,
            i <= vs@.len(),
            write_values_spec((old(w)@, old(pool)@), m) == write_each_value((w@, pool@), m.subrange(i as int, m.len() as int)),
        decreases vs@.len() - i,
    {
        proof {
            assert(m.subrange(i as int, m.len() as int)[0] == m[i as int]);
            assert(m.subrange(i as int, m.len() as int).drop_first() =~= m.subrange(i + 1, m.len() as int));
        }
        let ghost p0 = pool@;
        match write_value(w, pool, &vs[i]) {
            Ok(()) => {},
            Err(e) => {
                return Err(e);
            },
        }
        proof {
            lemma_extends_trans(pool_slots(old(pool)@), pool_slots(p0), pool_slots(pool@));
        }
        i = i + 1;
    }
    assert(m.subrange(vs@.len() as int, m.len() as int) =~= Seq::<ValueModel>::empty());
    Ok(())
}

/// Writes the number of element-value pairs, then each of them: the index of
/// the name, then the value.
fn write_pairs(w: &mut Vec<u8>, pool: &mut PoolWrite, ps: &Vec<ElementValuePair>) -> (r: Result<(), Error>)
    requires
        old(pool).wf(),
    ensures
        final(pool).wf(),
        extends(pool_slots(old(pool)@), pool_slots(final(pool)@)),
        match write_pairs_spec((old(w)@, old(pool)@), pairs_view(ps@)) {
            Ok((b, es)) => r is Ok && final(w)@ == b && final(pool)@ == es,
            Err(e) => r == Err::<(), Error>(e),
        },
    decreases ps, 1int,
{
    let ghost m = pairs_view(ps@);
    proof {
        lemma_pairs_view_index(ps@);
    }
    write_usize_as_u16(w, ps.len())?;
    let mut i: usize = 0;
    assert(m.subrange(0, m.len() as int) =~= m);
    while i < ps.len()
        invariant
            pool.wf(),
            extends(pool_slots(old(pool)@), pool_slots(pool@)),
            m == pairs_view(ps@),
            m.len() == ps@.len(),
            forall|k: int| 0 <= k < ps@.len() ==> #[trigger] m[k] == (ps@[k].name@, value_view(ps@[k].value)),
            ps@.len() <= 0xFFFF,
            i <= ps@.len(),
            write_pairs_spec((old(w)@, old(pool)@), m) == write_each_pair((w@, pool@), m.subrange(i as int, m.len() as int)),
        decreases ps@.len() - i,
    {
        proof {
            assert(m.subrange(i as int, m.len() as int)[0] == m[i as int]);
            assert(m.subrange(i as int, m.len() as int).drop_first() =~= m.subrange(i + 1, m.len() as int));
        }
        let ghost p0 = pool@;
        let pair = &ps[i];
        let k = match pool.put_utf8(&pair.name) {
            Ok(k) => k,
            Err(e) => {
                return Err(e);
            },
        };
        write_u16(w, k);
        let ghost p1 = pool@;
        match write_value(w, pool, &pair.value) {
            Ok(()) => {},
            Err(e) => {
                return Err(e);
            },
        }
        proof {
            lemma_extends_trans(pool_slots(p0), pool_slots(p1), pool_slots(pool@));
            lemma_extends_trans(pool_slots(old(pool)@), pool_slots(p0), pool_slots(pool@));
        }
        i = i + 1;
    }
    assert(m.subrange(ps@.len() as int, m.len() as int) =~= Seq::<(Seq<u32>, ValueModel)>::empty());
    Ok(())
}

/// Writes an annotation: the index of its type, then its element-value pairs.
fn write_annotation(w: &mut Vec<u8>, pool: &mut PoolWrite, a: &Annotation) -> (r: Result<(), Error>)
    requires
        old(pool).wf(),
    ensures
        final(pool).wf(),
        extends(pool_slots(old(pool)@), pool_slots(final(pool)@)),
        match write_annotation_spec((old(w)@, old(pool)@), a@) {
            Ok((b, es)) => r is Ok && final(w)@ == b && final(pool)@ == es,
            Err(e) => r == Err::<(), Error>(e),
        },
    decreases a, 2int,
{
    let ghost p0 = pool@;
    let i = pool.put_utf8(a.annotation_type.as_inner())?;
    write_u16(w, i);
    let ghost p1 = pool@;
    let r = write_pairs(w, pool, &a.element_value_pairs);
    proof {
        lemma_extends_trans(pool_slots(p0), pool_slots(p1), pool_slots(pool@));
    }
    r
}

/// Writes the contents of an annotations attribute: the number of
/// annotations, then each of them.
pub fn write_annotations(w: &mut Vec<u8>, pool: &mut PoolWrite, annotations: &Vec<Annotation>) -> (r: Result<(), Error>)
    requires
        old(pool).wf(),
    ensures
        final(pool).wf(),
        extends(pool_slots(old(pool)@), pool_slots(final(pool)@)),
        match write_annotations_spec((old(w)@, old(pool)@), annotations_view(annotations@)) {
            Ok((b, es)) => r is Ok && final(w)@ == b && final(pool)@ == es,
            Err(e) => r == Err::<(), Error>(e),
        },
{
    let ghost m = annotations_view(annotations@);
    write_usize_as_u16(w, annotations.len())?;
    let mut i: usize = 0;
    assert(m.subrange(0, m.len() as int) =~= m);
    while i < annotations.len()
        invariant
            pool.wf(),
            extends(pool_slots(old(pool)@), pool_slots(pool@)),
            m == annotations_view(annotations@),
            annotations@.len() <= 0xFFFF,
            i <= annotations@.len(),
            write_annotations_spec((old(w)@, old(pool)@), m)
                == write_each_annotation((w@, pool@), m.subrange(i as int, m.len() as int)),
        decreases annotations@.len() - i,
    {
        proof {
            assert(m.subrange(i as int, m.len() as int)[0] == m[i as int]);
            assert(m.subrange(i as int, m.len() as int).drop_first() =~= m.subrange(i + 1, m.len() as int));
        }
        let ghost p0 = pool@;
        match write_annotation(w, pool, &annotations[i]) {
            Ok(()) => {},
            Err(e) => {
                return Err(e);
            },
        }
        proof {
            lemma_extends_trans(pool_slots(old(pool)@), pool_slots(p0), pool_slots(pool@));
        }
        i = i + 1;
    }
    assert(m.subrange(annotations@.len() as int, m.len() as int) =~= Seq::<AnnotationModel>::empty());
    Ok(())
}

/// Writes an element value, such as the contents of an `AnnotationDefault` attribute.
pub fn write_element_value(w: &mut Vec<u8>, pool: &mut PoolWrite, v: &ElementValue) -> (r: Result<(), Error>)
    requires
        old(pool).wf(),
    ensures
        final(pool).wf(),
        extends(pool_slots(old(pool)@), pool_slots(final(pool)@)),
        match write_value_spec((old(w)@, old(pool)@), v@) {
            Ok((b, es)) => r is Ok && final(w)@ == b && final(pool)@ == es,
            Err(e) => r == Err::<(), Error>(e),
        },
{
    write_value(w, pool, v)
}

/// Element values are written with the tags the JVMS gives them: `B` byte,
/// `C` char, `D` double, `F` float, `I` int, `J` long, `S` short, `Z` boolean,
/// `s` string, `e` enum constant, `c` class literal, `@` nested annotation,
/// `[` array.
pub proof fn lemma_element_value_written_tags(o: ObjectModel)
    ensures
        o is Byte ==> object_tag_of(o) == 0x42,
        o is Char ==> object_tag_of(o) == 0x43,
        o is Double ==> object_tag_of(o) == 0x44,
        o is Float ==> object_tag_of(o) == 0x46,
        o is Integer ==> object_tag_of(o) == 0x49,
        o is Long ==> object_tag_of(o) == 0x4A,
        o is Short ==> object_tag_of(o) == 0x53,
        o is Boolean ==> object_tag_of(o) == 0x5A,
        o is String ==> object_tag_of(o) == 0x73,
        TAG_ENUM == 0x65,
        TAG_CLASS == 0x63,
        TAG_ANNOTATION == 0x40,
        TAG_ARRAY == 0x5B,
{
}

} // verus!

