//! Reading back a written field: the bytes, read with a pool that holds the
//! entries the writing added, give the field again.
use vstd::prelude::*;
use crate::bytes::{be_u16, be_u32, u16_bytes, u32_bytes};
use crate::class_reader::code_attribute::attribute_name;
use crate::class_reader::field::{field_attr, field_attr_at, field_attrs, pool_constant, read_field_at, skipped_field_attr};
use crate::class_reader::method::MemberRead;
use crate::class_reader::pool::{EntryModel, pool_get, pool_utf8};
use crate::error::Error;
use crate::simple_class_writer::annotation::write_annotations_spec;
use crate::simple_class_writer::annotation_round_trip::{valid_annotation, lemma_annotations_grows, lemma_annotations_shift,
    lemma_annotations_write_read};
use crate::tree::annotation::AnnotationModel;
use crate::simple_class_writer::member::{annotations_attr, buffered_attr, attr_header, field_attrs_from, index_attr, then_attr, unknown_attr_writer,
    unknown_attrs, write_field_spec};
use crate::simple_class_writer::module::{WriteState, put_index, write_each};
use crate::simple_class_writer::module_round_trip::{good_pool, grows, is_prefix, lemma_grows_trans, lemma_each_err, lemma_index_at,
    lemma_prefix_append, lemma_prefix_of_append, lemma_prefix_trans, lemma_put, lemma_put_utf8};
use crate::simple_class_writer::pool::{extends, pool_slots, put_constant_spec, put_spec, put_string_spec, put_utf8_spec,
    lemma_be_u32_at, lemma_extends_trans, lemma_get_extends, lemma_utf8_extends};
use crate::tree::attribute::AttributeModel;
use crate::tree::descriptor::valid_field_descriptor;
use crate::tree::field::{field_access_bits, field_access_of, lemma_field_access_round_trip};
use crate::tree::member::{ConstantModel, FieldModel, new_field};
use crate::tree::names::valid_unqualified_name;
use crate::visitor::every_field_attribute;

verus! {

/// What was written, with `x` in front.
pub open spec fn shifted(r: Result<WriteState, Error>, x: Seq<u8>) -> Result<WriteState, Error> {
    match r {
        Ok((b, es)) => Ok((x + b, es)),
        Err(e) => Err(e),
    }
}

/// What was written and counted, with `x` in front.
pub open spec fn shifted_count(r: Result<(WriteState, nat), Error>, x: Seq<u8>) -> Result<(WriteState, nat), Error> {
    match r {
        Ok(((b, es), n)) => Ok(((x + b, es), n)),
        Err(e) => Err(e),
    }
}

/// Writing an index does not look at what was written before it.
pub proof fn lemma_put_index_shift(x: Seq<u8>, b: Seq<u8>, r: (Result<u16, Error>, Seq<EntryModel>))
    ensures
        put_index(x + b, r) == shifted(put_index(b, r), x),
{
    if let (Ok(i), _) = r {
        assert((x + b) + u16_bytes(i) =~= x + (b + u16_bytes(i)));
    }
}

/// Writing an attribute header does not look at what was written before it.
proof fn lemma_attr_header_shift(x: Seq<u8>, b: Seq<u8>, es: Seq<EntryModel>, name: Seq<u32>, length: u32)
    ensures
        attr_header((x + b, es), name, length) == shifted(attr_header((b, es), name, length), x),
{
    lemma_put_index_shift(x, b, put_utf8_spec(es, name));
    if let Ok((b2, es2)) = put_index(b, put_utf8_spec(es, name)) {
        assert((x + b2) + u32_bytes(length) =~= x + (b2 + u32_bytes(length)));
    }
}

/// Writing an attribute of one index does not look at what was written before it.
proof fn lemma_index_attr_shift(x: Seq<u8>, b: Seq<u8>, es: Seq<EntryModel>, name: Seq<u32>,
    put: spec_fn(Seq<EntryModel>) -> (Result<u16, Error>, Seq<EntryModel>))
    ensures
        index_attr((x + b, es), name, put) == shifted(index_attr((b, es), name, put), x),
{
    lemma_attr_header_shift(x, b, es, name, 2);
    if let Ok((b2, es2)) = attr_header((b, es), name, 2) {
        lemma_put_index_shift(x, b2, put(es2));
    }
}

/// Writing a kept attribute does not look at what was written before it.
proof fn lemma_unknown_shift(x: Seq<u8>, b: Seq<u8>, es: Seq<EntryModel>, a: AttributeModel)
    ensures
        unknown_attr_writer()((x + b, es), a) == shifted(unknown_attr_writer()((b, es), a), x),
{
    lemma_put_index_shift(x, b, put_utf8_spec(es, a.name));
    if let Ok((b2, es2)) = put_index(b, put_utf8_spec(es, a.name)) {
        if a.bytes.len() <= u32::MAX {
            assert((x + b2) + u32_bytes(a.bytes.len() as u32) + a.bytes =~= x + (b2 + u32_bytes(a.bytes.len() as u32) + a.bytes));
        }
    }
}

/// Writing kept attributes does not look at what was written before them.
proof fn lemma_each_unknown_shift(x: Seq<u8>, st: WriteState, items: Seq<AttributeModel>)
    ensures
        write_each(Ok((x + st.0, st.1)), items, unknown_attr_writer()) == shifted(write_each(Ok(st), items, unknown_attr_writer()), x),
    decreases items.len(),
{
    if items.len() > 0 {
        lemma_unknown_shift(x, st.0, st.1, items[0]);
        match unknown_attr_writer()(st, items[0]) {
            Ok(s1) => lemma_each_unknown_shift(x, s1, items.skip(1)),
            Err(e) => lemma_each_err(e, items.skip(1), unknown_attr_writer()),
        }
    }
}

/// One more attribute written with `g`, where `g` does not look at what was written before.
proof fn lemma_then_shift(s: Result<(WriteState, nat), Error>, x: Seq<u8>, g: spec_fn(WriteState) -> Result<WriteState, Error>)
    requires
        s matches Ok(((b, es), _)) ==> g((x + b, es)) == shifted(g((b, es)), x),
    ensures
        then_attr(shifted_count(s, x), g) == shifted_count(then_attr(s, g), x),
{
}

/// Writing an attribute with buffered contents does not look at what was written before it.
proof fn lemma_buffered_shift(x: Seq<u8>, b: Seq<u8>, es: Seq<EntryModel>, name: Seq<u32>,
    content: spec_fn(WriteState) -> Result<WriteState, Error>)
    ensures
        buffered_attr((x + b, es), name, content) == shifted(buffered_attr((b, es), name, content), x),
{
    if let Ok((cb, es1)) = content((Seq::empty(), es)) {
        lemma_put_index_shift(x, b, put_utf8_spec(es1, name));
        if let Ok((b2, es2)) = put_index(b, put_utf8_spec(es1, name)) {
            if cb.len() <= u32::MAX {
                assert((x + b2) + u32_bytes(cb.len() as u32) + cb =~= x + (b2 + u32_bytes(cb.len() as u32) + cb));
            }
        }
    }
}

/// Writing an annotations attribute does not look at what was written before it.
proof fn lemma_annotations_attr_shift(s: Result<(WriteState, nat), Error>, x: Seq<u8>, name: Seq<u32>,
    xs: Seq<AnnotationModel>)
    ensures
        annotations_attr(shifted_count(s, x), name, xs) == shifted_count(annotations_attr(s, name, xs), x),
{
    if xs.len() > 0 {
        let g = |st: WriteState| buffered_attr(st, name, |cs: WriteState| write_annotations_spec(cs, xs));
        if let Ok(((b, es), _)) = s {
            lemma_buffered_shift(x, b, es, name, |cs: WriteState| write_annotations_spec(cs, xs));
        }
        lemma_then_shift(s, x, g);
    }
}

/// Writing the attributes of a field does not look at what was written before them.
pub proof fn lemma_field_attrs_shift(x: Seq<u8>, st: WriteState, f: FieldModel)
    ensures
        field_attrs_from((x + st.0, st.1), f) == shifted_count(field_attrs_from(st, f), x),
{
    let g1 = |st: WriteState| attr_header(st, attribute_name("Deprecated"), 0);
    let g2 = |st: WriteState| attr_header(st, attribute_name("Synthetic"), 0);
    let s0: Result<(WriteState, nat), Error> = Ok((st, 0));
    let s1 = if f.has_deprecated_attribute { then_attr(s0, g1) } else { s0 };
    if let Ok(((b, es), _)) = s0 {
        lemma_attr_header_shift(x, b, es, attribute_name("Deprecated"), 0);
    }
    lemma_then_shift(s0, x, g1);
    let s2 = if f.has_synthetic_attribute { then_attr(s1, g2) } else { s1 };
    if let Ok(((b, es), _)) = s1 {
        lemma_attr_header_shift(x, b, es, attribute_name("Synthetic"), 0);
    }
    lemma_then_shift(s1, x, g2);
    let s3 = match f.constant_value {
        Some(c) => then_attr(s2, |st: WriteState| index_attr(st, attribute_name("ConstantValue"),
            |es: Seq<EntryModel>| put_constant_spec(es, c))),
        None => s2,
    };
    if let Some(c) = f.constant_value {
        let g3 = |st: WriteState| index_attr(st, attribute_name("ConstantValue"), |es: Seq<EntryModel>| put_constant_spec(es, c));
        if let Ok(((b, es), _)) = s2 {
            lemma_index_attr_shift(x, b, es, attribute_name("ConstantValue"), |es: Seq<EntryModel>| put_constant_spec(es, c));
        }
        lemma_then_shift(s2, x, g3);
    }
    let s4 = match f.signature {
        Some(s) => then_attr(s3, |st: WriteState| index_attr(st, attribute_name("Signature"),
            |es: Seq<EntryModel>| put_utf8_spec(es, s))),
        None => s3,
    };
    if let Some(s) = f.signature {
        let g4 = |st: WriteState| index_attr(st, attribute_name("Signature"), |es: Seq<EntryModel>| put_utf8_spec(es, s));
        if let Ok(((b, es), _)) = s3 {
            lemma_index_attr_shift(x, b, es, attribute_name("Signature"), |es: Seq<EntryModel>| put_utf8_spec(es, s));
        }
        lemma_then_shift(s3, x, g4);
    }
    lemma_annotations_attr_shift(s4, x, attribute_name("RuntimeVisibleAnnotations"), f.runtime_visible_annotations);
    let s5 = annotations_attr(s4, attribute_name("RuntimeVisibleAnnotations"), f.runtime_visible_annotations);
    lemma_annotations_attr_shift(s5, x, attribute_name("RuntimeInvisibleAnnotations"), f.runtime_invisible_annotations);
    let s6 = annotations_attr(s5, attribute_name("RuntimeInvisibleAnnotations"), f.runtime_invisible_annotations);
    if let Ok(((b, es), _)) = s6 {
        lemma_each_unknown_shift(x, (b, es), f.attributes);
    }
}

/// Adding the entry of a constant: it can be read at the index, and the pool grows.
proof fn lemma_put_constant(es: Seq<EntryModel>, c: ConstantModel)
    requires
        good_pool(es),
    ensures
        put_constant_spec(es, c) matches (Ok(i), es2) ==> pool_constant(pool_slots(es2), i) == Ok::<ConstantModel, Error>(c)
            && good_pool(es2) && extends(pool_slots(es), pool_slots(es2)),
{
    match c {
        ConstantModel::Integer(v) => lemma_put(es, EntryModel::Integer { bytes: v }),
        ConstantModel::Float(v) => lemma_put(es, EntryModel::Float { bytes: v }),
        ConstantModel::Long(v) => lemma_put(es, EntryModel::Long { bytes: v }),
        ConstantModel::Double(v) => lemma_put(es, EntryModel::Double { bytes: v }),
        ConstantModel::String(s) => {
            lemma_put_utf8(es, s);
            if let (Ok(j), es1) = put_utf8_spec(es, s) {
                let e = EntryModel::String { string_index: j };
                lemma_put(es1, e);
                if let Ok((i, es2)) = put_spec(es1, e) {
                    lemma_utf8_extends(pool_slots(es1), pool_slots(es2), j);
                    lemma_extends_trans(pool_slots(es), pool_slots(es1), pool_slots(es2));
                }
            }
        },
    }
}

/// A constant that can be read from `p` is read the same from every pool that extends `p`.
proof fn lemma_constant_extends(p: Seq<Option<EntryModel>>, q: Seq<Option<EntryModel>>, i: u16)
    requires
        extends(p, q),
        pool_constant(p, i) is Ok,
    ensures
        pool_constant(q, i) == pool_constant(p, i),
{
    lemma_get_extends(p, q, i);
    if let Ok(EntryModel::String { string_index }) = pool_get(p, i) {
        lemma_utf8_extends(p, q, string_index);
    }
}

/// A state that writing reaches from another: the same, or one that grew from it.
pub open spec fn reaches(s: WriteState, s2: WriteState) -> bool {
    s == s2 || grows(s, s2)
}

/// Reaching is transitive.
pub proof fn lemma_reaches_trans(s: WriteState, s2: WriteState, s3: WriteState)
    requires
        reaches(s, s2),
        reaches(s2, s3),
    ensures
        reaches(s, s3),
{
    if s != s2 && s2 != s3 {
        lemma_grows_trans(s, s2, s3);
    }
}

/// What a state reaches is in the data and the pool, so is the state.
pub proof fn lemma_reaches_within(s: WriteState, fin: WriteState, fb: Seq<u8>, q: Seq<Option<EntryModel>>)
    requires
        reaches(s, fin),
        is_prefix(fin.0, fb),
        extends(pool_slots(fin.1), q),
    ensures
        is_prefix(s.0, fb),
        extends(pool_slots(s.1), q),
{
    if s != fin {
        lemma_prefix_trans(s.0, fin.0, fb);
        lemma_extends_trans(pool_slots(s.1), pool_slots(fin.1), q);
    }
}

/// Writing the header of an attribute after `st.0`: the state grows, and the
/// name and the length are read back.
proof fn lemma_header_read(st: WriteState, name: Seq<u32>, length: u32, fb: Seq<u8>, q: Seq<Option<EntryModel>>,
    rs: FieldModel)
    requires
        good_pool(st.1),
        attr_header(st, name, length) is Ok,
    ensures
        ({
            let out = attr_header(st, name, length)->Ok_0;
            &&& grows(st, out)
            &&& out.0.len() == st.0.len() + 6
            &&& is_prefix(out.0, fb) && extends(pool_slots(out.1), q) ==> field_attr_at(fb, st.0.len() as int, q,
                every_field_attribute(), rs) == field_attr(fb, st.0.len() + 6 as int, length as int, name, q,
                every_field_attribute(), rs)
        }),
{
    lemma_put_utf8(st.1, name);
    let (r, es2) = put_utf8_spec(st.1, name);
    let i = r->Ok_0;
    let b1 = st.0 + u16_bytes(i);
    let b2 = b1 + u32_bytes(length);
    assert(is_prefix(st.0, b2)) by {
        assert(b2.take(st.0.len() as int) =~= st.0);
    }
    if is_prefix(b2, fb) && extends(pool_slots(es2), q) {
        lemma_prefix_of_append(b1, u32_bytes(length), fb);
        lemma_index_at(st.0, i, fb);
        lemma_utf8_extends(pool_slots(es2), q, i);
        let p = st.0.len() as int;
        assert forall|j: int| 0 <= j < 4 implies fb[p + 2 + j] == #[trigger] u32_bytes(length)[j] by {
            assert(fb.take(b2.len() as int)[p + 2 + j] == fb[p + 2 + j]);
            assert(b2[p + 2 + j] == u32_bytes(length)[j]);
        }
        lemma_be_u32_at(fb, p + 2, length);
    }
}

/// Writing a `ConstantValue` attribute: the state grows, and the attribute is read back.
proof fn lemma_constant_step(st: WriteState, c: ConstantModel, fb: Seq<u8>, q: Seq<Option<EntryModel>>, rs: FieldModel)
    requires
        good_pool(st.1),
        index_attr(st, attribute_name("ConstantValue"), |es: Seq<EntryModel>| put_constant_spec(es, c)) is Ok,
    ensures
        ({
            let out = index_attr(st, attribute_name("ConstantValue"), |es: Seq<EntryModel>| put_constant_spec(es, c))->Ok_0;
            &&& grows(st, out)
            &&& is_prefix(out.0, fb) && extends(pool_slots(out.1), q) && rs.constant_value is None
                ==> field_attr_at(fb, st.0.len() as int, q, every_field_attribute(), rs)
                    == MemberRead::Read(FieldModel { constant_value: Some(c), ..rs }, out.0.len() as int)
        }),
{
    let name = attribute_name("ConstantValue");
    lemma_header_read(st, name, 2, fb, q, rs);
    let (hb, es2) = attr_header(st, name, 2)->Ok_0;
    lemma_put_constant(es2, c);
    let (r, es3) = put_constant_spec(es2, c);
    let k = r->Ok_0;
    let out = (hb + u16_bytes(k), es3);
    assert(is_prefix(hb, out.0)) by {
        lemma_prefix_append(hb, u16_bytes(k));
    }
    lemma_grows_trans(st, (hb, es2), out);
    if is_prefix(out.0, fb) && extends(pool_slots(out.1), q) && rs.constant_value is None {
        reveal_strlit("ConstantValue");
        reveal_strlit("Deprecated");
        reveal_strlit("Synthetic");
        assert(name.len() == 13);
        assert(attribute_name("Deprecated").len() == 10);
        assert(attribute_name("Synthetic").len() == 9);
        lemma_prefix_of_append(hb, u16_bytes(k), fb);
        lemma_extends_trans(pool_slots(es2), pool_slots(es3), q);
        lemma_index_at(hb, k, fb);
        lemma_constant_extends(pool_slots(es3), q, k);
    }
}

/// Writing a `Signature` attribute: the state grows, and the attribute is read back.
proof fn lemma_signature_step(st: WriteState, sig: Seq<u32>, fb: Seq<u8>, q: Seq<Option<EntryModel>>, rs: FieldModel)
    requires
        good_pool(st.1),
        index_attr(st, attribute_name("Signature"), |es: Seq<EntryModel>| put_utf8_spec(es, sig)) is Ok,
    ensures
        ({
            let out = index_attr(st, attribute_name("Signature"), |es: Seq<EntryModel>| put_utf8_spec(es, sig))->Ok_0;
            &&& grows(st, out)
            &&& is_prefix(out.0, fb) && extends(pool_slots(out.1), q) && rs.signature is None
                ==> field_attr_at(fb, st.0.len() as int, q, every_field_attribute(), rs)
                    == MemberRead::Read(FieldModel { signature: Some(sig), ..rs }, out.0.len() as int)
        }),
{
    let name = attribute_name("Signature");
    lemma_header_read(st, name, 2, fb, q, rs);
    let (hb, es2) = attr_header(st, name, 2)->Ok_0;
    lemma_put_utf8(es2, sig);
    let (r, es3) = put_utf8_spec(es2, sig);
    let k = r->Ok_0;
    let out = (hb + u16_bytes(k), es3);
    assert(is_prefix(hb, out.0)) by {
        lemma_prefix_append(hb, u16_bytes(k));
    }
    lemma_grows_trans(st, (hb, es2), out);
    if is_prefix(out.0, fb) && extends(pool_slots(out.1), q) && rs.signature is None {
        reveal_strlit("ConstantValue");
        reveal_strlit("Deprecated");
        reveal_strlit("Synthetic");
        reveal_strlit("Signature");
        assert(name.len() == 9);
        assert(attribute_name("Deprecated").len() == 10);
        assert(attribute_name("ConstantValue").len() == 13);
        assert(name[1] != attribute_name("Synthetic")[1]);
        lemma_prefix_of_append(hb, u16_bytes(k), fb);
        lemma_extends_trans(pool_slots(es2), pool_slots(es3), q);
        lemma_index_at(hb, k, fb);
        lemma_utf8_extends(pool_slots(es3), q, k);
    }
}

/// Writing an annotations attribute: the state grows, and the annotations are read back.
#[verifier::spinoff_prover]
#[verifier::rlimit(50)]
proof fn lemma_annotations_step(st: WriteState, visible: bool, xs: Seq<AnnotationModel>, fb: Seq<u8>,
    q: Seq<Option<EntryModel>>, rs: FieldModel)
    requires
        good_pool(st.1),
        forall|k: int| 0 <= k < xs.len() ==> valid_annotation(#[trigger] xs[k]),
        buffered_attr(st, attribute_name(if visible { "RuntimeVisibleAnnotations" } else { "RuntimeInvisibleAnnotations" }),
            |cs: WriteState| write_annotations_spec(cs, xs)) is Ok,
    ensures
        ({
            let name = attribute_name(if visible { "RuntimeVisibleAnnotations" } else { "RuntimeInvisibleAnnotations" });
            let out = buffered_attr(st, name, |cs: WriteState| write_annotations_spec(cs, xs))->Ok_0;
            &&& grows(st, out)
            &&& is_prefix(out.0, fb) && extends(pool_slots(out.1), q)
                && (if visible { rs.runtime_visible_annotations.len() == 0 } else { rs.runtime_invisible_annotations.len() == 0 })
                ==> field_attr_at(fb, st.0.len() as int, q, every_field_attribute(), rs) == MemberRead::Read(
                    if visible {
                        FieldModel { runtime_visible_annotations: xs, ..rs }
                    } else {
                        FieldModel { runtime_invisible_annotations: xs, ..rs }
                    }, out.0.len() as int)
        }),
{
    let name = attribute_name(if visible { "RuntimeVisibleAnnotations" } else { "RuntimeInvisibleAnnotations" });
    let (cb, es1) = write_annotations_spec((Seq::empty(), st.1), xs)->Ok_0;
    lemma_annotations_grows((Seq::empty(), st.1), xs);
    let len = cb.len() as u32;
    let st1 = (st.0, es1);
    lemma_header_read(st1, name, len, fb, q, rs);
    let (hb, es2) = attr_header(st1, name, len)->Ok_0;
    let out = (hb + cb, es2);
    assert(out == buffered_attr(st, name, |cs: WriteState| write_annotations_spec(cs, xs))->Ok_0);
    lemma_prefix_append(hb, cb);
    lemma_prefix_trans(st.0, hb, out.0);
    lemma_extends_trans(pool_slots(st.1), pool_slots(es1), pool_slots(es2));
    if is_prefix(out.0, fb) && extends(pool_slots(out.1), q)
        && (if visible { rs.runtime_visible_annotations.len() == 0 } else { rs.runtime_invisible_annotations.len() == 0 }) {
        lemma_prefix_of_append(hb, cb, fb);
        lemma_extends_trans(pool_slots(es1), pool_slots(es2), q);
        lemma_annotations_shift(hb, (Seq::empty(), st.1), xs);
        assert(hb + Seq::<u8>::empty() =~= hb);
        let after = fb.subrange(out.0.len() as int, fb.len() as int);
        assert(out.0 + after =~= fb) by {
            assert forall|j: int| 0 <= j < out.0.len() implies fb[j] == out.0[j] by {
                assert(fb.take(out.0.len() as int)[j] == fb[j]);
            }
        }
        lemma_annotations_write_read(xs, hb, st.1, q, after);
        reveal_strlit("RuntimeVisibleAnnotations");
        reveal_strlit("RuntimeInvisibleAnnotations");
        reveal_strlit("Deprecated");
        reveal_strlit("Synthetic");
        reveal_strlit("ConstantValue");
        reveal_strlit("Signature");
        assert(attribute_name("RuntimeVisibleAnnotations").len() == 25);
        assert(attribute_name("RuntimeInvisibleAnnotations").len() == 27);
        assert(attribute_name("Deprecated").len() == 10);
        assert(attribute_name("Synthetic").len() == 9);
        assert(attribute_name("ConstantValue").len() == 13);
        assert(attribute_name("Signature").len() == 9);
        if visible {
            assert(rs.runtime_visible_annotations + xs =~= xs);
        } else {
            assert(rs.runtime_invisible_annotations + xs =~= xs);
        }
    }
}

/// Whether the reader of fields interprets an attribute named `name` rather
/// than keeping it.
pub open spec fn interpreted_field_attr(name: Seq<u32>) -> bool {
    ||| name == attribute_name("RuntimeVisibleAnnotations")
    ||| name == attribute_name("RuntimeInvisibleAnnotations")
    ||| name == attribute_name("Deprecated")
    ||| name == attribute_name("Synthetic")
    ||| name == attribute_name("ConstantValue")
    ||| name == attribute_name("Signature")
    ||| skipped_field_attr(name)
}

/// Writing kept attributes, and reading them back: each is added to the field read.
proof fn lemma_unknowns_read(st: WriteState, items: Seq<AttributeModel>, fb: Seq<u8>, q: Seq<Option<EntryModel>>,
    rs: FieldModel)
    requires
        good_pool(st.1),
        write_each(Ok(st), items, unknown_attr_writer()) is Ok,
        forall|k: int| 0 <= k < items.len() ==> !interpreted_field_attr(#[trigger] items[k].name),
    ensures
        ({
            let fin = write_each(Ok(st), items, unknown_attr_writer())->Ok_0;
            &&& reaches(st, fin)
            &&& is_prefix(fin.0, fb) && extends(pool_slots(fin.1), q)
                ==> field_attrs(fb, st.0.len() as int, items.len() as int, q, every_field_attribute(), rs)
                    == MemberRead::Read(FieldModel { attributes: rs.attributes + items, ..rs }, fin.0.len() as int)
        }),
    decreases items.len(),
{
    let f = unknown_attr_writer();
    if items.len() == 0 {
        assert(rs.attributes + items =~= rs.attributes);
    } else {
        let a = items[0];
        if let Err(e) = f(st, a) {
            lemma_each_err(e, items.skip(1), f);
        }
        let s1 = f(st, a)->Ok_0;
        let rest = items.skip(1);
        assert forall|k: int| 0 <= k < rest.len() implies !interpreted_field_attr(#[trigger] rest[k].name) by {
            assert(rest[k] == items[k + 1]);
        }
        let len = a.bytes.len() as u32;
        lemma_header_read(st, a.name, len, fb, q, rs);
        let (hb, es1) = attr_header(st, a.name, len)->Ok_0;
        assert(s1.0 == hb + a.bytes);
        assert(is_prefix(hb, s1.0)) by {
            lemma_prefix_append(hb, a.bytes);
        }
        assert(grows(st, s1)) by {
            lemma_prefix_trans(st.0, hb, s1.0);
        }
        let rs1 = FieldModel { attributes: rs.attributes.push(a), ..rs };
        lemma_unknowns_read(s1, rest, fb, q, rs1);
        let fin = write_each(Ok(st), items, f)->Ok_0;
        assert(write_each(Ok(st), items, f) == write_each(Ok(s1), rest, f));
        lemma_reaches_trans(st, s1, fin);
        if is_prefix(fin.0, fb) && extends(pool_slots(fin.1), q) {
            lemma_reaches_within(s1, fin, fb, q);
            lemma_prefix_of_append(hb, a.bytes, fb);
            let p6: int = st.0.len() as int + 6;
            assert(fb.subrange(p6, p6 + len) =~= a.bytes) by {
                assert forall|j: int| 0 <= j < len implies fb.subrange(p6, p6 + len)[j] == a.bytes[j] by {
                    assert(fb.take(s1.0.len() as int)[p6 + j] == fb[p6 + j]);
                    assert(s1.0[p6 + j] == a.bytes[j]);
                }
            }
            assert(field_attr_at(fb, st.0.len() as int, q, every_field_attribute(), rs)
                == MemberRead::Read(rs1, s1.0.len() as int));
            assert(rs.attributes.push(a) + rest =~= rs.attributes + items);
        }
    }
}

/// Writing a `Deprecated` or `Synthetic` attribute: the state grows, and the attribute is read back.
proof fn lemma_flag_step(st: WriteState, deprecated: bool, fb: Seq<u8>, q: Seq<Option<EntryModel>>, rs: FieldModel)
    requires
        good_pool(st.1),
        attr_header(st, attribute_name(if deprecated { "Deprecated" } else { "Synthetic" }), 0) is Ok,
    ensures
        ({
            let out = attr_header(st, attribute_name(if deprecated { "Deprecated" } else { "Synthetic" }), 0)->Ok_0;
            &&& grows(st, out)
            &&& is_prefix(out.0, fb) && extends(pool_slots(out.1), q)
                ==> field_attr_at(fb, st.0.len() as int, q, every_field_attribute(), rs) == MemberRead::Read(
                    if deprecated {
                        FieldModel { has_deprecated_attribute: true, ..rs }
                    } else {
                        FieldModel { has_synthetic_attribute: true, ..rs }
                    }, out.0.len() as int)
        }),
{
    let name = attribute_name(if deprecated { "Deprecated" } else { "Synthetic" });
    lemma_header_read(st, name, 0, fb, q, rs);
    if !deprecated {
        reveal_strlit("Deprecated");
        reveal_strlit("Synthetic");
        assert(name.len() == 9);
        assert(attribute_name("Deprecated").len() == 10);
    }
}

/// Reading one more attribute: the attributes after it are read into what it gave.
proof fn lemma_attrs_step(fb: Seq<u8>, pos: int, k: int, q: Seq<Option<EntryModel>>, r: FieldModel, r2: FieldModel, pos2: int)
    requires
        k >= 0,
        field_attr_at(fb, pos, q, every_field_attribute(), r) == MemberRead::Read(r2, pos2),
    ensures
        field_attrs(fb, pos, k + 1, q, every_field_attribute(), r) == field_attrs(fb, pos2, k, q, every_field_attribute(), r2),
{
}

#[verifier::spinoff_prover]
#[verifier::rlimit(50)]
proof fn lemma_field_attrs_tail(st4: WriteState, n4: nat, f: FieldModel, fb: Seq<u8>, q: Seq<Option<EntryModel>>,
    r4: FieldModel)
    requires
        forall|k: int| 0 <= k < f.runtime_visible_annotations.len()
            ==> valid_annotation(#[trigger] f.runtime_visible_annotations[k]),
        forall|k: int| 0 <= k < f.runtime_invisible_annotations.len()
            ==> valid_annotation(#[trigger] f.runtime_invisible_annotations[k]),
        good_pool(st4.1),
        forall|k: int| 0 <= k < f.attributes.len() ==> !interpreted_field_attr(#[trigger] f.attributes[k].name),
        r4.runtime_visible_annotations.len() == 0,
        r4.runtime_invisible_annotations.len() == 0,
        r4.attributes.len() == 0,
        unknown_attrs(annotations_attr(annotations_attr(Ok((st4, n4)), attribute_name("RuntimeVisibleAnnotations"),
            f.runtime_visible_annotations), attribute_name("RuntimeInvisibleAnnotations"), f.runtime_invisible_annotations),
            f.attributes) is Ok,
    ensures
        ({
            let (fin, n) = unknown_attrs(annotations_attr(annotations_attr(Ok((st4, n4)),
                attribute_name("RuntimeVisibleAnnotations"), f.runtime_visible_annotations),
                attribute_name("RuntimeInvisibleAnnotations"), f.runtime_invisible_annotations), f.attributes)->Ok_0;
            &&& n >= n4
            &&& reaches(st4, fin)
            &&& is_prefix(fin.0, fb) && extends(pool_slots(fin.1), q)
                ==> field_attrs(fb, st4.0.len() as int, n - n4, q, every_field_attribute(), r4) == MemberRead::Read(
                    FieldModel {
                        runtime_visible_annotations: f.runtime_visible_annotations,
                        runtime_invisible_annotations: f.runtime_invisible_annotations,
                        attributes: f.attributes,
                        ..r4
                    }, fin.0.len() as int)
        }),
{
    let fi = every_field_attribute();
    let vis = f.runtime_visible_annotations;
    let inv = f.runtime_invisible_annotations;
    let s4: Result<(WriteState, nat), Error> = Ok((st4, n4));
    let s5 = annotations_attr(s4, attribute_name("RuntimeVisibleAnnotations"), vis);
    let s6 = annotations_attr(s5, attribute_name("RuntimeInvisibleAnnotations"), inv);
    assert(s6 is Ok);
    assert(s5 is Ok);
    let (st5, n5) = s5->Ok_0;
    let (st6, n6) = s6->Ok_0;
    let r5 = FieldModel { runtime_visible_annotations: vis, ..r4 };
    let r6 = FieldModel { runtime_invisible_annotations: inv, ..r5 };
    if vis.len() > 0 {
        lemma_annotations_step(st4, true, vis, fb, q, r4);
    }
    assert(reaches(st4, st5) && good_pool(st5.1));
    if inv.len() > 0 {
        lemma_annotations_step(st5, false, inv, fb, q, r5);
    }
    assert(reaches(st5, st6) && good_pool(st6.1));
    lemma_unknowns_read(st6, f.attributes, fb, q, r6);
    let (fin, n) = unknown_attrs(s6, f.attributes)->Ok_0;
    assert(fin == write_each(Ok(st6), f.attributes, unknown_attr_writer())->Ok_0);
    lemma_reaches_trans(st5, st6, fin);
    lemma_reaches_trans(st4, st5, fin);
    if is_prefix(fin.0, fb) && extends(pool_slots(fin.1), q) {
        lemma_reaches_within(st5, fin, fb, q);
        lemma_reaches_within(st6, fin, fb, q);
        let m = f.attributes.len() as int;
        assert(r6.attributes + f.attributes =~= f.attributes);
        if vis.len() == 0 {
            assert(r4.runtime_visible_annotations =~= vis);
        }
        if inv.len() == 0 {
            assert(r4.runtime_invisible_annotations =~= inv);
        }
        assert(n == n6 + m);
        if inv.len() > 0 {
            lemma_attrs_step(fb, st5.0.len() as int, n - n6, q, r5, r6, st6.0.len() as int);
        }
        if vis.len() > 0 {
            lemma_attrs_step(fb, st4.0.len() as int, n - n5, q, r4, r5, st5.0.len() as int);
        }
    }
}

/// Writing the attributes of a field after `st`, and reading them back into
/// the field with no attributes: the field is read.
#[verifier::spinoff_prover]
#[verifier::rlimit(50)]
proof fn lemma_field_attrs_read(st: WriteState, f: FieldModel, fb: Seq<u8>, q: Seq<Option<EntryModel>>)
    requires
        forall|k: int| 0 <= k < f.runtime_visible_annotations.len()
            ==> valid_annotation(#[trigger] f.runtime_visible_annotations[k]),
        forall|k: int| 0 <= k < f.runtime_invisible_annotations.len()
            ==> valid_annotation(#[trigger] f.runtime_invisible_annotations[k]),
        good_pool(st.1),
        field_attrs_from(st, f) is Ok,
        forall|k: int| 0 <= k < f.attributes.len() ==> !interpreted_field_attr(#[trigger] f.attributes[k].name),
    ensures
        ({
            let (fin, n) = field_attrs_from(st, f)->Ok_0;
            &&& reaches(st, fin)
            &&& is_prefix(fin.0, fb) && extends(pool_slots(fin.1), q)
                ==> field_attrs(fb, st.0.len() as int, n as int, q, every_field_attribute(),
                    new_field(f.access, f.name, f.descriptor)) == MemberRead::Read(f, fin.0.len() as int)
        }),
{
    let fi = every_field_attribute();
    let r0 = new_field(f.access, f.name, f.descriptor);
    let s0: Result<(WriteState, nat), Error> = Ok((st, 0));
    let g1 = |st: WriteState| attr_header(st, attribute_name("Deprecated"), 0);
    let g2 = |st: WriteState| attr_header(st, attribute_name("Synthetic"), 0);
    let s1 = if f.has_deprecated_attribute { then_attr(s0, g1) } else { s0 };
    let s2 = if f.has_synthetic_attribute { then_attr(s1, g2) } else { s1 };
    let s3 = match f.constant_value {
        Some(c) => then_attr(s2, |st: WriteState| index_attr(st, attribute_name("ConstantValue"),
            |es: Seq<EntryModel>| put_constant_spec(es, c))),
        None => s2,
    };
    let s4 = match f.signature {
        Some(s) => then_attr(s3, |st: WriteState| index_attr(st, attribute_name("Signature"),
            |es: Seq<EntryModel>| put_utf8_spec(es, s))),
        None => s3,
    };
    let tail = unknown_attrs(annotations_attr(annotations_attr(s4, attribute_name("RuntimeVisibleAnnotations"),
        f.runtime_visible_annotations), attribute_name("RuntimeInvisibleAnnotations"), f.runtime_invisible_annotations),
        f.attributes);
    assert(field_attrs_from(st, f) == tail);
    assert(s4 is Ok);
    assert(s3 is Ok);
    assert(s2 is Ok);
    assert(s1 is Ok);
    let (st1, n1) = s1->Ok_0;
    let (st2, n2) = s2->Ok_0;
    let (st3, n3) = s3->Ok_0;
    let (st4, n4) = s4->Ok_0;
    let r1 = FieldModel { has_deprecated_attribute: f.has_deprecated_attribute, ..r0 };
    let r2 = FieldModel { has_synthetic_attribute: f.has_synthetic_attribute, ..r1 };
    let r3 = FieldModel { constant_value: f.constant_value, ..r2 };
    let r4 = FieldModel { signature: f.signature, ..r3 };
    if f.has_deprecated_attribute {
        lemma_flag_step(st, true, fb, q, r0);
    }
    assert(reaches(st, st1) && good_pool(st1.1));
    if f.has_synthetic_attribute {
        lemma_flag_step(st1, false, fb, q, r1);
    }
    assert(reaches(st1, st2) && good_pool(st2.1));
    if let Some(c) = f.constant_value {
        lemma_constant_step(st2, c, fb, q, r2);
    }
    assert(reaches(st2, st3) && good_pool(st3.1));
    if let Some(sig) = f.signature {
        lemma_signature_step(st3, sig, fb, q, r3);
    }
    assert(reaches(st3, st4) && good_pool(st4.1));
    lemma_field_attrs_tail(st4, n4, f, fb, q, r4);
    let (fin, n) = tail->Ok_0;
    lemma_reaches_trans(st3, st4, fin);
    lemma_reaches_trans(st2, st3, fin);
    lemma_reaches_trans(st1, st2, fin);
    lemma_reaches_trans(st, st1, fin);
    if is_prefix(fin.0, fb) && extends(pool_slots(fin.1), q) {
        lemma_reaches_within(st1, fin, fb, q);
        lemma_reaches_within(st2, fin, fb, q);
        lemma_reaches_within(st3, fin, fb, q);
        lemma_reaches_within(st4, fin, fb, q);
        assert(FieldModel {
            runtime_visible_annotations: f.runtime_visible_annotations,
            runtime_invisible_annotations: f.runtime_invisible_annotations,
            attributes: f.attributes,
            ..r4
        } == f);
        if f.signature is Some {
            lemma_attrs_step(fb, st3.0.len() as int, n - n4, q, r3, r4, st4.0.len() as int);
        }
        if f.constant_value is Some {
            lemma_attrs_step(fb, st2.0.len() as int, n - n3, q, r2, r3, st3.0.len() as int);
        }
        if f.has_synthetic_attribute {
            lemma_attrs_step(fb, st1.0.len() as int, n - n2, q, r1, r2, st2.0.len() as int);
        }
        if f.has_deprecated_attribute {
            lemma_attrs_step(fb, st.0.len() as int, n - n1, q, r0, r1, st1.0.len() as int);
        }
    }
}

/// Reading the start of a field whose access flags, name index, descriptor
/// index and number of attributes are known.
proof fn lemma_read_field_start(fb: Seq<u8>, pos: int, q: Seq<Option<EntryModel>>, bits: u16, ni: u16, di: u16, n: u16,
    name: Seq<u32>, desc: Seq<u32>)
    requires
        pos >= 0,
        pos + 8 <= fb.len(),
        be_u16(fb, pos) == bits,
        be_u16(fb, pos + 2) == ni,
        be_u16(fb, pos + 4) == di,
        be_u16(fb, pos + 6) == n,
        pool_utf8(q, ni) == Ok::<Seq<u32>, Error>(name),
        pool_utf8(q, di) == Ok::<Seq<u32>, Error>(desc),
        valid_unqualified_name(name),
        valid_field_descriptor(desc),
    ensures
        read_field_at(fb, pos, q, every_field_attribute())
            == field_attrs(fb, pos + 8, n as int, q, every_field_attribute(), new_field(field_access_of(bits), name, desc)),
{
}

/// A field is read back as it was written: where a field with a valid name,
/// descriptor and annotations, none of whose kept attributes has a name the
/// reader interprets,
/// is written after `bytes` with the pool `es`, the written bytes, followed by
/// anything, read at the position it was written at with a pool that holds
/// every entry the writing added, give the same field, and the reading ends
/// where the writing ended.
#[verifier::spinoff_prover]
#[verifier::rlimit(100)]
pub proof fn lemma_field_write_read(f: FieldModel, bytes: Seq<u8>, es: Seq<EntryModel>, q: Seq<Option<EntryModel>>,
    after: Seq<u8>)
    requires
        forall|k: int| 0 <= k < f.runtime_visible_annotations.len()
            ==> valid_annotation(#[trigger] f.runtime_visible_annotations[k]),
        forall|k: int| 0 <= k < f.runtime_invisible_annotations.len()
            ==> valid_annotation(#[trigger] f.runtime_invisible_annotations[k]),
        good_pool(es),
        valid_unqualified_name(f.name),
        valid_field_descriptor(f.descriptor),
        forall|k: int| 0 <= k < f.attributes.len() ==> !interpreted_field_attr(#[trigger] f.attributes[k].name),
        write_field_spec((bytes, es), f) is Ok,
        extends(pool_slots((write_field_spec((bytes, es), f)->Ok_0).1), q),
    ensures
        ({
            let written = (write_field_spec((bytes, es), f)->Ok_0).0;
            read_field_at(written + after, bytes.len() as int, q, every_field_attribute())
                == MemberRead::Read(f, written.len() as int)
        }),
{
    let fi = every_field_attribute();
    lemma_put_utf8(es, f.name);
    let (rn, es1) = put_utf8_spec(es, f.name);
    let ni = rn->Ok_0;
    lemma_put_utf8(es1, f.descriptor);
    let (rd, es2) = put_utf8_spec(es1, f.descriptor);
    let di = rd->Ok_0;
    let ((buf, es3), n) = field_attrs_from((Seq::empty(), es2), f)->Ok_0;
    let bits = field_access_bits(f.access);
    let h1 = bytes + u16_bytes(bits);
    let h2 = h1 + u16_bytes(ni);
    let h3 = h2 + u16_bytes(di);
    let h4 = h3 + u16_bytes(n as u16);
    let written = h4 + buf;
    assert(written == (write_field_spec((bytes, es), f)->Ok_0).0);
    let fb = written + after;
    lemma_prefix_append(written, after);
    lemma_field_attrs_shift(h4, (Seq::empty(), es2), f);
    assert(h4 + Seq::<u8>::empty() =~= h4);
    lemma_field_attrs_read((h4, es2), f, fb, q);
    let fin = (written, es3);
    assert(field_attrs_from((h4, es2), f) == Ok::<(WriteState, nat), Error>((fin, n)));
    lemma_reaches_within((h4, es2), fin, fb, q);
    lemma_extends_trans(pool_slots(es1), pool_slots(es2), q);
    lemma_utf8_extends(pool_slots(es1), q, ni);
    lemma_utf8_extends(pool_slots(es2), q, di);
    lemma_prefix_of_append(h4, buf, fb);
    lemma_prefix_of_append(h3, u16_bytes(n as u16), fb);
    lemma_prefix_of_append(h2, u16_bytes(di), fb);
    lemma_prefix_of_append(h1, u16_bytes(ni), fb);
    lemma_index_at(bytes, bits, fb);
    lemma_index_at(h1, ni, fb);
    lemma_index_at(h2, di, fb);
    lemma_index_at(h3, n as u16, fb);
    lemma_field_access_round_trip(f.access);
    lemma_read_field_start(fb, bytes.len() as int, q, bits, ni, di, n as u16, f.name, f.descriptor);
}

} // verus!
