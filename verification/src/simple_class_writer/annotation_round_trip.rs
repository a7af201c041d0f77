//! Reading back written annotations: the bytes, read with a pool that holds
//! the entries the writing added, give the annotations again.
use vstd::prelude::*;
use crate::bytes::{be_u16, u16_bytes};
use crate::class_reader::annotation::{annotation_at, annotations_from, object_tag, pairs_from, pool_field_descriptor,
    pool_object, pool_return_descriptor, read_annotations_at, value_at, values_from, TAG_ANNOTATION, TAG_ARRAY, TAG_CLASS,
    TAG_ENUM};
use crate::class_reader::pool::{EntryModel, pool_get, pool_utf8};
use crate::error::Error;
use crate::simple_class_writer::annotation::{object_tag_of, put_object_spec, write_annotation_spec, write_annotations_spec,
    write_each_annotation, write_each_pair, write_each_value, write_pairs_spec, write_value_spec, write_values_spec};
use crate::simple_class_writer::field_round_trip::{reaches, shifted, lemma_put_index_shift, lemma_reaches_trans,
    lemma_reaches_within};
use crate::simple_class_writer::module::{WriteState, put_index};
use crate::simple_class_writer::module_round_trip::{good_pool, grows, is_prefix, lemma_grows_trans, lemma_index_at,
    lemma_prefix_append, lemma_prefix_of_append, lemma_prefix_trans, lemma_put, lemma_put_utf8};
use crate::simple_class_writer::pool::{extends, lemma_extends_trans, lemma_get_extends, lemma_utf8_extends, pool_slots,
    put_utf8_spec};
use crate::tree::annotation::{AnnotationModel, ObjectModel, ValueModel};
use crate::tree::descriptor::{valid_field_descriptor, valid_return_descriptor};

verus! {

/// Every descriptor in an element value is valid: the type of an enum
/// constant and of a nested annotation a field descriptor, a class literal a
/// return descriptor.
pub open spec fn valid_value(v: ValueModel) -> bool
    decreases v, 0int,
{
    match v {
        ValueModel::Object(_) => true,
        ValueModel::Enum(t, _) => valid_field_descriptor(t),
        ValueModel::Class(c) => valid_return_descriptor(c),
        ValueModel::Annotation(a) => valid_annotation(a),
        ValueModel::Array(vs) => valid_values(vs),
    }
}

/// Every element value of `vs` is valid.
pub open spec fn valid_values(vs: Seq<ValueModel>) -> bool
    decreases vs, 0int,
{
    vs.len() == 0 || (valid_value(vs[0]) && valid_values(vs.drop_first()))
}

/// Every value of the pairs `ps` is valid.
pub open spec fn valid_pairs(ps: Seq<(Seq<u32>, ValueModel)>) -> bool
    decreases ps, 0int,
{
    ps.len() == 0 || (valid_value(ps[0].1) && valid_pairs(ps.drop_first()))
}

/// The type of an annotation is a field descriptor, and its values are valid.
pub open spec fn valid_annotation(a: AnnotationModel) -> bool
    decreases a, 1int,
{
    valid_field_descriptor(a.annotation_type) && valid_pairs(a.pairs)
}

/// A constant that can be read from `p` is read the same from every pool that extends `p`.
proof fn lemma_object_extends(p: Seq<Option<EntryModel>>, q: Seq<Option<EntryModel>>, tag: u8, i: u16)
    requires
        extends(p, q),
        pool_object(p, tag, i) is Ok,
    ensures
        pool_object(q, tag, i) == pool_object(p, tag, i),
{
    lemma_get_extends(p, q, i);
}

/// Adding the entry of a constant: it can be read at the index, and the pool grows.
proof fn lemma_put_object(es: Seq<EntryModel>, o: ObjectModel)
    requires
        good_pool(es),
    ensures
        put_object_spec(es, o) matches (Ok(i), es2) ==> pool_object(pool_slots(es2), object_tag_of(o), i)
            == Ok::<ObjectModel, Error>(o) && good_pool(es2) && extends(pool_slots(es), pool_slots(es2)),
{
    match o {
        ObjectModel::Byte(v) => lemma_put(es, EntryModel::Integer { bytes: v as i32 }),
        ObjectModel::Char(v) => lemma_put(es, EntryModel::Integer { bytes: v as i32 }),
        ObjectModel::Double(v) => lemma_put(es, EntryModel::Double { bytes: v }),
        ObjectModel::Float(v) => lemma_put(es, EntryModel::Float { bytes: v }),
        ObjectModel::Integer(v) => lemma_put(es, EntryModel::Integer { bytes: v }),
        ObjectModel::Long(v) => lemma_put(es, EntryModel::Long { bytes: v }),
        ObjectModel::Short(v) => lemma_put(es, EntryModel::Integer { bytes: v as i32 }),
        ObjectModel::Boolean(v) => lemma_put(es, EntryModel::Integer { bytes: if v { 1 } else { 0 } }),
        ObjectModel::String(s) => lemma_put_utf8(es, s),
    }
}

/// A tag written after `bytes`, in data that starts with what was written, is read back.
proof fn lemma_tag_at(bytes: Seq<u8>, tag: u8, rest: Seq<u8>, fb: Seq<u8>)
    requires
        is_prefix(bytes.push(tag) + rest, fb),
    ensures
        bytes.len() < fb.len(),
        fb[bytes.len() as int] == tag,
        is_prefix(bytes.push(tag), fb),
{
    lemma_prefix_of_append(bytes.push(tag), rest, fb);
    assert(fb.take(bytes.len() + 1 as int)[bytes.len() as int] == fb[bytes.len() as int]);
}

/// Writing one byte and nothing else to the pool is a step of writing.
proof fn lemma_push_grows(st: WriteState, x: u8)
    requires
        good_pool(st.1),
    ensures
        grows(st, (st.0.push(x), st.1)),
{
    lemma_prefix_append(st.0, seq![x]);
    assert(st.0 + seq![x] =~= st.0.push(x));
}

/// Writing an element value, and reading it back with enough nesting depth.
proof fn lemma_value_rt(st: WriteState, v: ValueModel, fb: Seq<u8>, q: Seq<Option<EntryModel>>, d: nat)
    requires
        good_pool(st.1),
        valid_value(v),
        write_value_spec(st, v) is Ok,
    ensures
        ({
            let fin = write_value_spec(st, v)->Ok_0;
            &&& grows(st, fin)
            &&& is_prefix(fin.0, fb) && extends(pool_slots(fin.1), q) && d >= fin.0.len() - st.0.len()
                ==> value_at(fb, st.0.len() as int, q, d) == Ok::<(ValueModel, int), Error>((v, fin.0.len() as int))
        }),
    decreases v, 0int,
{
    let pos = st.0.len() as int;
    match v {
        ValueModel::Object(o) => {
            let tag = object_tag_of(o);
            lemma_put_object(st.1, o);
            let (r, es2) = put_object_spec(st.1, o);
            let i = r->Ok_0;
            let b1 = st.0.push(tag);
            let fin = (b1 + u16_bytes(i), es2);
            assert(fin == write_value_spec(st, v)->Ok_0);
            assert(is_prefix(st.0, fin.0)) by {
                assert(fin.0.take(pos) =~= st.0);
            }
            if is_prefix(fin.0, fb) && extends(pool_slots(fin.1), q) && d >= fin.0.len() - st.0.len() {
                lemma_tag_at(st.0, tag, u16_bytes(i), fb);
                lemma_index_at(b1, i, fb);
                lemma_object_extends(pool_slots(es2), q, tag, i);
                assert(object_tag(tag));
            }
        },
        ValueModel::Enum(t, c) => {
            lemma_put_utf8(st.1, t);
            let (r1, es1) = put_utf8_spec(st.1, t);
            let i = r1->Ok_0;
            let b0 = st.0.push(TAG_ENUM);
            let b1 = b0 + u16_bytes(i);
            lemma_put_utf8(es1, c);
            let (r2, es2) = put_utf8_spec(es1, c);
            let j = r2->Ok_0;
            let fin = (b1 + u16_bytes(j), es2);
            assert(fin == write_value_spec(st, v)->Ok_0);
            assert(is_prefix(st.0, fin.0)) by {
                assert(fin.0.take(pos) =~= st.0);
            }
            lemma_extends_trans(pool_slots(st.1), pool_slots(es1), pool_slots(es2));
            if is_prefix(fin.0, fb) && extends(pool_slots(fin.1), q) && d >= fin.0.len() - st.0.len() {
                lemma_prefix_of_append(b1, u16_bytes(j), fb);
                assert(b1 == st.0.push(TAG_ENUM) + u16_bytes(i));
                lemma_tag_at(st.0, TAG_ENUM, u16_bytes(i), fb);
                lemma_index_at(b0, i, fb);
                lemma_index_at(b1, j, fb);
                lemma_extends_trans(pool_slots(es1), pool_slots(es2), q);
                lemma_utf8_extends(pool_slots(es1), q, i);
                lemma_utf8_extends(pool_slots(es2), q, j);
                assert(!object_tag(TAG_ENUM));
            }
        },
        ValueModel::Class(c) => {
            lemma_put_utf8(st.1, c);
            let (r1, es1) = put_utf8_spec(st.1, c);
            let i = r1->Ok_0;
            let b0 = st.0.push(TAG_CLASS);
            let fin = (b0 + u16_bytes(i), es1);
            assert(fin == write_value_spec(st, v)->Ok_0);
            assert(is_prefix(st.0, fin.0)) by {
                assert(fin.0.take(pos) =~= st.0);
            }
            if is_prefix(fin.0, fb) && extends(pool_slots(fin.1), q) && d >= fin.0.len() - st.0.len() {
                lemma_tag_at(st.0, TAG_CLASS, u16_bytes(i), fb);
                lemma_index_at(b0, i, fb);
                lemma_utf8_extends(pool_slots(es1), q, i);
                assert(!object_tag(TAG_CLASS));
            }
        },
        ValueModel::Annotation(a) => {
            let st1 = (st.0.push(TAG_ANNOTATION), st.1);
            lemma_push_grows(st, TAG_ANNOTATION);
            lemma_annotation_rt(st1, a, fb, q, (d - 1) as nat);
            let fin = write_annotation_spec(st1, a)->Ok_0;
            lemma_grows_trans(st, st1, fin);
            if is_prefix(fin.0, fb) && extends(pool_slots(fin.1), q) && d >= fin.0.len() - st.0.len() {
                lemma_prefix_trans(st1.0, fin.0, fb);
                lemma_tag_at(st.0, TAG_ANNOTATION, Seq::empty(), fb);
                assert(st.0.push(TAG_ANNOTATION) + Seq::<u8>::empty() =~= st.0.push(TAG_ANNOTATION));
                assert(!object_tag(TAG_ANNOTATION));
            }
        },
        ValueModel::Array(vs) => {
            let st1 = (st.0.push(TAG_ARRAY), st.1);
            lemma_push_grows(st, TAG_ARRAY);
            lemma_values_rt(st1, vs, fb, q, (d - 1) as nat);
            let fin = write_values_spec(st1, vs)->Ok_0;
            lemma_grows_trans(st, st1, fin);
            if is_prefix(fin.0, fb) && extends(pool_slots(fin.1), q) && d >= fin.0.len() - st.0.len() {
                lemma_prefix_trans(st1.0, fin.0, fb);
                lemma_tag_at(st.0, TAG_ARRAY, Seq::empty(), fb);
                assert(st.0.push(TAG_ARRAY) + Seq::<u8>::empty() =~= st.0.push(TAG_ARRAY));
                assert(!object_tag(TAG_ARRAY));
            }
        },
    }
}

/// Writing element values one after the other, and reading them back.
proof fn lemma_each_value_rt(st: WriteState, vs: Seq<ValueModel>, fb: Seq<u8>, q: Seq<Option<EntryModel>>, d: nat)
    requires
        good_pool(st.1),
        valid_values(vs),
        write_each_value(st, vs) is Ok,
    ensures
        ({
            let fin = write_each_value(st, vs)->Ok_0;
            &&& reaches(st, fin)
            &&& is_prefix(fin.0, fb) && extends(pool_slots(fin.1), q) && d >= fin.0.len() - st.0.len()
                ==> values_from(fb, st.0.len() as int, vs.len() as nat, q, d)
                    == Ok::<(Seq<ValueModel>, int), Error>((vs, fin.0.len() as int))
        }),
    decreases vs, 0int,
{
    if vs.len() == 0 {
        assert(vs =~= Seq::<ValueModel>::empty());
    } else {
        lemma_value_rt(st, vs[0], fb, q, d);
        let s1 = write_value_spec(st, vs[0])->Ok_0;
        let rest = vs.drop_first();
        lemma_each_value_rt(s1, rest, fb, q, d);
        let fin = write_each_value(st, vs)->Ok_0;
        lemma_reaches_trans(st, s1, fin);
        if is_prefix(fin.0, fb) && extends(pool_slots(fin.1), q) && d >= fin.0.len() - st.0.len() {
            lemma_reaches_within(s1, fin, fb, q);
            assert(seq![vs[0]] + rest =~= vs);
        }
    }
}

/// Writing the number of element values and the values, and reading them back.
proof fn lemma_values_rt(st: WriteState, vs: Seq<ValueModel>, fb: Seq<u8>, q: Seq<Option<EntryModel>>, d: nat)
    requires
        good_pool(st.1),
        valid_values(vs),
        write_values_spec(st, vs) is Ok,
    ensures
        ({
            let fin = write_values_spec(st, vs)->Ok_0;
            &&& grows(st, fin)
            &&& is_prefix(fin.0, fb) && extends(pool_slots(fin.1), q) && d >= fin.0.len() - st.0.len() ==> {
                &&& st.0.len() + 2 <= fb.len()
                &&& be_u16(fb, st.0.len() as int) == vs.len()
                &&& values_from(fb, st.0.len() + 2 as int, vs.len() as nat, q, d)
                    == Ok::<(Seq<ValueModel>, int), Error>((vs, fin.0.len() as int))
            }
        }),
    decreases vs, 1int,
{
    let st0 = (st.0 + u16_bytes(vs.len() as u16), st.1);
    lemma_prefix_append(st.0, u16_bytes(vs.len() as u16));
    lemma_each_value_rt(st0, vs, fb, q, d);
    let fin = write_values_spec(st, vs)->Ok_0;
    if st0 != fin {
        lemma_grows_trans(st, st0, fin);
    }
    if is_prefix(fin.0, fb) && extends(pool_slots(fin.1), q) && d >= fin.0.len() - st.0.len() {
        lemma_reaches_within(st0, fin, fb, q);
        lemma_index_at(st.0, vs.len() as u16, fb);
    }
}

/// Writing element-value pairs one after the other, and reading them back.
proof fn lemma_each_pair_rt(st: WriteState, ps: Seq<(Seq<u32>, ValueModel)>, fb: Seq<u8>, q: Seq<Option<EntryModel>>, d: nat)
    requires
        good_pool(st.1),
        valid_pairs(ps),
        write_each_pair(st, ps) is Ok,
    ensures
        ({
            let fin = write_each_pair(st, ps)->Ok_0;
            &&& reaches(st, fin)
            &&& is_prefix(fin.0, fb) && extends(pool_slots(fin.1), q) && d >= fin.0.len() - st.0.len()
                ==> pairs_from(fb, st.0.len() as int, ps.len() as nat, q, d)
                    == Ok::<(Seq<(Seq<u32>, ValueModel)>, int), Error>((ps, fin.0.len() as int))
        }),
    decreases ps, 0int,
{
    if ps.len() == 0 {
        assert(ps =~= Seq::<(Seq<u32>, ValueModel)>::empty());
    } else {
        let (name, v) = ps[0];
        lemma_put_utf8(st.1, name);
        let (r, es1) = put_utf8_spec(st.1, name);
        let i = r->Ok_0;
        let s1 = (st.0 + u16_bytes(i), es1);
        lemma_prefix_append(st.0, u16_bytes(i));
        lemma_value_rt(s1, v, fb, q, d);
        let s2 = write_value_spec(s1, v)->Ok_0;
        lemma_grows_trans(st, s1, s2);
        let rest = ps.drop_first();
        lemma_each_pair_rt(s2, rest, fb, q, d);
        let fin = write_each_pair(st, ps)->Ok_0;
        lemma_reaches_trans(st, s2, fin);
        if is_prefix(fin.0, fb) && extends(pool_slots(fin.1), q) && d >= fin.0.len() - st.0.len() {
            lemma_reaches_within(s2, fin, fb, q);
            lemma_prefix_trans(s1.0, s2.0, fb);
            lemma_extends_trans(pool_slots(es1), pool_slots(s2.1), q);
            lemma_index_at(st.0, i, fb);
            lemma_utf8_extends(pool_slots(es1), q, i);
            assert(seq![ps[0]] + rest =~= ps);
        }
    }
}

/// Writing the number of element-value pairs and the pairs, and reading them back.
proof fn lemma_pairs_rt(st: WriteState, ps: Seq<(Seq<u32>, ValueModel)>, fb: Seq<u8>, q: Seq<Option<EntryModel>>, d: nat)
    requires
        good_pool(st.1),
        valid_pairs(ps),
        write_pairs_spec(st, ps) is Ok,
    ensures
        ({
            let fin = write_pairs_spec(st, ps)->Ok_0;
            &&& grows(st, fin)
            &&& is_prefix(fin.0, fb) && extends(pool_slots(fin.1), q) && d >= fin.0.len() - st.0.len() ==> {
                &&& st.0.len() + 2 <= fb.len()
                &&& be_u16(fb, st.0.len() as int) == ps.len()
                &&& pairs_from(fb, st.0.len() + 2 as int, ps.len() as nat, q, d)
                    == Ok::<(Seq<(Seq<u32>, ValueModel)>, int), Error>((ps, fin.0.len() as int))
            }
        }),
    decreases ps, 1int,
{
    let st0 = (st.0 + u16_bytes(ps.len() as u16), st.1);
    lemma_prefix_append(st.0, u16_bytes(ps.len() as u16));
    lemma_each_pair_rt(st0, ps, fb, q, d);
    let fin = write_pairs_spec(st, ps)->Ok_0;
    if st0 != fin {
        lemma_grows_trans(st, st0, fin);
    }
    if is_prefix(fin.0, fb) && extends(pool_slots(fin.1), q) && d >= fin.0.len() - st.0.len() {
        lemma_reaches_within(st0, fin, fb, q);
        lemma_index_at(st.0, ps.len() as u16, fb);
    }
}

/// Writing an annotation, and reading it back.
proof fn lemma_annotation_rt(st: WriteState, a: AnnotationModel, fb: Seq<u8>, q: Seq<Option<EntryModel>>, d: nat)
    requires
        good_pool(st.1),
        valid_annotation(a),
        write_annotation_spec(st, a) is Ok,
    ensures
        ({
            let fin = write_annotation_spec(st, a)->Ok_0;
            &&& grows(st, fin)
            &&& is_prefix(fin.0, fb) && extends(pool_slots(fin.1), q) && d >= fin.0.len() - st.0.len()
                ==> annotation_at(fb, st.0.len() as int, q, d) == Ok::<(AnnotationModel, int), Error>((a, fin.0.len() as int))
        }),
    decreases a, 2int,
{
    lemma_put_utf8(st.1, a.annotation_type);
    let (r, es1) = put_utf8_spec(st.1, a.annotation_type);
    let i = r->Ok_0;
    let s1 = (st.0 + u16_bytes(i), es1);
    lemma_prefix_append(st.0, u16_bytes(i));
    lemma_pairs_rt(s1, a.pairs, fb, q, d);
    let fin = write_annotation_spec(st, a)->Ok_0;
    lemma_grows_trans(st, s1, fin);
    if is_prefix(fin.0, fb) && extends(pool_slots(fin.1), q) && d >= fin.0.len() - st.0.len() {
        lemma_prefix_trans(s1.0, fin.0, fb);
        lemma_extends_trans(pool_slots(es1), pool_slots(fin.1), q);
        lemma_index_at(st.0, i, fb);
        lemma_utf8_extends(pool_slots(es1), q, i);
        assert(AnnotationModel { annotation_type: a.annotation_type, pairs: a.pairs } == a);
    }
}

/// Writing annotations one after the other, and reading them back.
proof fn lemma_each_annotation_rt(st: WriteState, xs: Seq<AnnotationModel>, fb: Seq<u8>, q: Seq<Option<EntryModel>>, d: nat)
    requires
        good_pool(st.1),
        forall|k: int| 0 <= k < xs.len() ==> valid_annotation(#[trigger] xs[k]),
        write_each_annotation(st, xs) is Ok,
    ensures
        ({
            let fin = write_each_annotation(st, xs)->Ok_0;
            &&& reaches(st, fin)
            &&& is_prefix(fin.0, fb) && extends(pool_slots(fin.1), q) && d >= fin.0.len() - st.0.len()
                ==> annotations_from(fb, st.0.len() as int, xs.len() as nat, q, d)
                    == Ok::<(Seq<AnnotationModel>, int), Error>((xs, fin.0.len() as int))
        }),
    decreases xs.len(),
{
    if xs.len() == 0 {
        assert(xs =~= Seq::<AnnotationModel>::empty());
    } else {
        assert(valid_annotation(xs[0]));
        lemma_annotation_rt(st, xs[0], fb, q, d);
        let s1 = write_annotation_spec(st, xs[0])->Ok_0;
        let rest = xs.drop_first();
        assert forall|k: int| 0 <= k < rest.len() implies valid_annotation(#[trigger] rest[k]) by {
            assert(rest[k] == xs[k + 1]);
        }
        lemma_each_annotation_rt(s1, rest, fb, q, d);
        let fin = write_each_annotation(st, xs)->Ok_0;
        lemma_reaches_trans(st, s1, fin);
        if is_prefix(fin.0, fb) && extends(pool_slots(fin.1), q) && d >= fin.0.len() - st.0.len() {
            lemma_reaches_within(s1, fin, fb, q);
            assert(seq![xs[0]] + rest =~= xs);
        }
    }
}

/// Annotations are read back as they were written: where annotations whose
/// descriptors are valid are written after `bytes` with the pool `es`, the
/// written bytes, followed by anything, read at the position they were written
/// at with a pool that holds every entry the writing added, give the same
/// annotations, and the reading ends where the writing ended.
pub proof fn lemma_annotations_write_read(xs: Seq<AnnotationModel>, bytes: Seq<u8>, es: Seq<EntryModel>,
    q: Seq<Option<EntryModel>>, after: Seq<u8>)
    requires
        good_pool(es),
        forall|k: int| 0 <= k < xs.len() ==> valid_annotation(#[trigger] xs[k]),
        write_annotations_spec((bytes, es), xs) is Ok,
        extends(pool_slots((write_annotations_spec((bytes, es), xs)->Ok_0).1), q),
    ensures
        ({
            let written = (write_annotations_spec((bytes, es), xs)->Ok_0).0;
            read_annotations_at(written + after, bytes.len() as int, q)
                == Ok::<(Seq<AnnotationModel>, int), Error>((xs, written.len() as int))
        }),
{
    let st0 = (bytes + u16_bytes(xs.len() as u16), es);
    lemma_prefix_append(bytes, u16_bytes(xs.len() as u16));
    let fin = write_annotations_spec((bytes, es), xs)->Ok_0;
    let fb = fin.0 + after;
    lemma_prefix_append(fin.0, after);
    lemma_each_annotation_rt(st0, xs, fb, q, fb.len());
    lemma_reaches_within(st0, fin, fb, q);
    lemma_index_at(bytes, xs.len() as u16, fb);
}

/// An element value is read back as it was written: where an element value
/// whose descriptors are valid is written after `bytes` with the pool `es`,
/// the written bytes, followed by anything, read at the position it was
/// written at with a pool that holds every entry the writing added, give the
/// same value, and the reading ends where the writing ended.
pub proof fn lemma_element_value_write_read(v: ValueModel, bytes: Seq<u8>, es: Seq<EntryModel>,
    q: Seq<Option<EntryModel>>, after: Seq<u8>)
    requires
        good_pool(es),
        valid_value(v),
        write_value_spec((bytes, es), v) is Ok,
        extends(pool_slots((write_value_spec((bytes, es), v)->Ok_0).1), q),
    ensures
        ({
            let written = (write_value_spec((bytes, es), v)->Ok_0).0;
            crate::class_reader::annotation::read_value_at(written + after, bytes.len() as int, q)
                == Ok::<(ValueModel, int), Error>((v, written.len() as int))
        }),
{
    let fin = write_value_spec((bytes, es), v)->Ok_0;
    let fb = fin.0 + after;
    lemma_prefix_append(fin.0, after);
    lemma_value_rt((bytes, es), v, fb, q, fb.len());
}

/// Writing an element value does not look at what was written before it.
proof fn lemma_value_shift(x: Seq<u8>, st: WriteState, v: ValueModel)
    ensures
        write_value_spec((x + st.0, st.1), v) == shifted(write_value_spec(st, v), x),
    decreases v, 0int,
{
    let b = st.0;
    let es = st.1;
    match v {
        ValueModel::Object(o) => {
            let tag = object_tag_of(o);
            assert((x + b).push(tag) =~= x + b.push(tag));
            lemma_put_index_shift(x, b.push(tag), put_object_spec(es, o));
        },
        ValueModel::Enum(t, c) => {
            assert((x + b).push(TAG_ENUM) =~= x + b.push(TAG_ENUM));
            lemma_put_index_shift(x, b.push(TAG_ENUM), put_utf8_spec(es, t));
            if let Ok(s1) = put_index(b.push(TAG_ENUM), put_utf8_spec(es, t)) {
                lemma_put_index_shift(x, s1.0, put_utf8_spec(s1.1, c));
            }
        },
        ValueModel::Class(c) => {
            assert((x + b).push(TAG_CLASS) =~= x + b.push(TAG_CLASS));
            lemma_put_index_shift(x, b.push(TAG_CLASS), put_utf8_spec(es, c));
        },
        ValueModel::Annotation(a) => {
            assert((x + b).push(TAG_ANNOTATION) =~= x + b.push(TAG_ANNOTATION));
            lemma_annotation_shift(x, (b.push(TAG_ANNOTATION), es), a);
        },
        ValueModel::Array(vs) => {
            assert((x + b).push(TAG_ARRAY) =~= x + b.push(TAG_ARRAY));
            lemma_values_shift(x, (b.push(TAG_ARRAY), es), vs);
        },
    }
}

/// Writing element values one after the other does not look at what was written before them.
proof fn lemma_each_value_shift(x: Seq<u8>, st: WriteState, vs: Seq<ValueModel>)
    ensures
        write_each_value((x + st.0, st.1), vs) == shifted(write_each_value(st, vs), x),
    decreases vs, 0int,
{
    if vs.len() > 0 {
        lemma_value_shift(x, st, vs[0]);
        if let Ok(s1) = write_value_spec(st, vs[0]) {
            lemma_each_value_shift(x, s1, vs.drop_first());
        }
    }
}

/// Writing a number of element values and the values does not look at what was written before them.
proof fn lemma_values_shift(x: Seq<u8>, st: WriteState, vs: Seq<ValueModel>)
    ensures
        write_values_spec((x + st.0, st.1), vs) == shifted(write_values_spec(st, vs), x),
    decreases vs, 1int,
{
    assert((x + st.0) + u16_bytes(vs.len() as u16) =~= x + (st.0 + u16_bytes(vs.len() as u16)));
    lemma_each_value_shift(x, (st.0 + u16_bytes(vs.len() as u16), st.1), vs);
}

/// Writing element-value pairs one after the other does not look at what was written before them.
proof fn lemma_each_pair_shift(x: Seq<u8>, st: WriteState, ps: Seq<(Seq<u32>, ValueModel)>)
    ensures
        write_each_pair((x + st.0, st.1), ps) == shifted(write_each_pair(st, ps), x),
    decreases ps, 0int,
{
    if ps.len() > 0 {
        lemma_put_index_shift(x, st.0, put_utf8_spec(st.1, ps[0].0));
        if let Ok(s1) = put_index(st.0, put_utf8_spec(st.1, ps[0].0)) {
            lemma_value_shift(x, s1, ps[0].1);
            if let Ok(s2) = write_value_spec(s1, ps[0].1) {
                lemma_each_pair_shift(x, s2, ps.drop_first());
            }
        }
    }
}

/// Writing a number of element-value pairs and the pairs does not look at what was written before them.
proof fn lemma_pairs_shift(x: Seq<u8>, st: WriteState, ps: Seq<(Seq<u32>, ValueModel)>)
    ensures
        write_pairs_spec((x + st.0, st.1), ps) == shifted(write_pairs_spec(st, ps), x),
    decreases ps, 1int,
{
    assert((x + st.0) + u16_bytes(ps.len() as u16) =~= x + (st.0 + u16_bytes(ps.len() as u16)));
    lemma_each_pair_shift(x, (st.0 + u16_bytes(ps.len() as u16), st.1), ps);
}

/// Writing an annotation does not look at what was written before it.
proof fn lemma_annotation_shift(x: Seq<u8>, st: WriteState, a: AnnotationModel)
    ensures
        write_annotation_spec((x + st.0, st.1), a) == shifted(write_annotation_spec(st, a), x),
    decreases a, 2int,
{
    lemma_put_index_shift(x, st.0, put_utf8_spec(st.1, a.annotation_type));
    if let Ok(s1) = put_index(st.0, put_utf8_spec(st.1, a.annotation_type)) {
        lemma_pairs_shift(x, s1, a.pairs);
    }
}

/// Writing annotations one after the other does not look at what was written before them.
proof fn lemma_each_annotation_shift(x: Seq<u8>, st: WriteState, xs: Seq<AnnotationModel>)
    ensures
        write_each_annotation((x + st.0, st.1), xs) == shifted(write_each_annotation(st, xs), x),
    decreases xs.len(),
{
    if xs.len() > 0 {
        lemma_annotation_shift(x, st, xs[0]);
        if let Ok(s1) = write_annotation_spec(st, xs[0]) {
            lemma_each_annotation_shift(x, s1, xs.drop_first());
        }
    }
}

/// Writing the contents of an annotations attribute does not look at what was written before it.
pub proof fn lemma_annotations_shift(x: Seq<u8>, st: WriteState, xs: Seq<AnnotationModel>)
    ensures
        write_annotations_spec((x + st.0, st.1), xs) == shifted(write_annotations_spec(st, xs), x),
{
    assert((x + st.0) + u16_bytes(xs.len() as u16) =~= x + (st.0 + u16_bytes(xs.len() as u16)));
    lemma_each_annotation_shift(x, (st.0 + u16_bytes(xs.len() as u16), st.1), xs);
}

/// Writing the contents of an annotations attribute is a step of writing.
pub proof fn lemma_annotations_grows(st: WriteState, xs: Seq<AnnotationModel>)
    requires
        good_pool(st.1),
        forall|k: int| 0 <= k < xs.len() ==> valid_annotation(#[trigger] xs[k]),
        write_annotations_spec(st, xs) is Ok,
    ensures
        grows(st, write_annotations_spec(st, xs)->Ok_0),
{
    let st0 = (st.0 + u16_bytes(xs.len() as u16), st.1);
    lemma_prefix_append(st.0, u16_bytes(xs.len() as u16));
    lemma_each_annotation_rt(st0, xs, Seq::empty(), Seq::empty(), 0);
    let fin = write_annotations_spec(st, xs)->Ok_0;
    if st0 != fin {
        lemma_grows_trans(st, st0, fin);
    }
}

} // verus!
