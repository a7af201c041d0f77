//! Reading back a written `Module` attribute: the attribute bytes, read with
//! a pool that holds the entries the writing added, give the module again.
use vstd::prelude::*;
use crate::bytes::{be_u16, u16_bytes};
use crate::class_reader::module::{read_counted, read_list, index_then, pool_optional_utf8};
use crate::class_reader::pool::{EntryModel, pool_utf8, pool_class, pool_module, pool_package};
use crate::error::Error;
use crate::simple_class_writer::module::{WriteState, write_each, write_counted, put_index, put_optional_utf8_spec, write_module_spec,
    module_name_writer, class_name_writer, requires_writer, exports_writer, opens_writer, provides_writer};
use crate::class_reader::module::{read_module_at, module_name_item, class_name_item, requires_item, exports_item, opens_item, provides_item};
use crate::tree::module::{RequiresModel, ExportsModel, OpensModel, ProvidesModel, ModuleModel, module_requires_flags_bits, module_exports_flags_bits, module_opens_flags_bits, module_flags_bits, lemma_module_requires_flags_round_trip, lemma_module_exports_flags_round_trip, lemma_module_opens_flags_round_trip, lemma_module_flags_round_trip};
use crate::simple_class_writer::pool::{
    extends, no_dup, pool_count, pool_slots, put_spec, put_utf8_spec, put_class_spec, put_module_spec, put_package_spec,
    lemma_put_get, lemma_extends_trans, lemma_be_u16_at, lemma_named_extends, lemma_utf8_extends,
};

verus! {

/// A pool of entries without duplicates that fits the limit on its size.
pub open spec fn good_pool(es: Seq<EntryModel>) -> bool {
    no_dup(es) && pool_count(es) <= 0xFFFF
}

/// `a` is where `b` starts.
pub open spec fn is_prefix(a: Seq<u8>, b: Seq<u8>) -> bool {
    a.len() <= b.len() && b.take(a.len() as int) == a
}

/// A step of writing: the bytes go on, the pool keeps what it had and stays good.
pub open spec fn grows(s: WriteState, s2: WriteState) -> bool {
    &&& is_prefix(s.0, s2.0)
    &&& extends(pool_slots(s.1), pool_slots(s2.1))
    &&& good_pool(s2.1)
}

/// Being a prefix is transitive.
pub proof fn lemma_prefix_trans(a: Seq<u8>, b: Seq<u8>, c: Seq<u8>)
    requires
        is_prefix(a, b),
        is_prefix(b, c),
    ensures
        is_prefix(a, c),
{
    assert(c.take(a.len() as int) =~= b.take(a.len() as int));
}

/// Steps of writing compose.
pub proof fn lemma_grows_trans(s: WriteState, s2: WriteState, s3: WriteState)
    requires
        grows(s, s2),
        grows(s2, s3),
    ensures
        grows(s, s3),
{
    lemma_prefix_trans(s.0, s2.0, s3.0);
    lemma_extends_trans(pool_slots(s.1), pool_slots(s2.1), pool_slots(s3.1));
}

/// Adding an entry to a good pool: the entry can be read at the index, and
/// the pool grows.
pub proof fn lemma_put(es: Seq<EntryModel>, e: EntryModel)
    requires
        good_pool(es),
    ensures
        put_spec(es, e) matches Ok((i, es2)) ==> crate::class_reader::pool::pool_get(pool_slots(es2), i) == Ok::<EntryModel, Error>(e)
            && good_pool(es2) && extends(pool_slots(es), pool_slots(es2)),
{
    lemma_put_get(es, e);
}

/// Adding a string: it can be read at the index, and the pool grows.
pub proof fn lemma_put_utf8(es: Seq<EntryModel>, s: Seq<u32>)
    requires
        good_pool(es),
    ensures
        put_utf8_spec(es, s) matches (Ok(i), es2) ==> pool_utf8(pool_slots(es2), i) == Ok::<Seq<u32>, Error>(s)
            && good_pool(es2) && extends(pool_slots(es), pool_slots(es2)),
{
    lemma_put(es, EntryModel::Utf8 { string: s });
}

/// The kinds of entries that carry a name: `Class`, `Package` and `Module`.
pub open spec fn named_entry(kind: int, i: u16) -> EntryModel {
    if kind == 0 {
        EntryModel::Class { name_index: i }
    } else if kind == 1 {
        EntryModel::Package { name_index: i }
    } else {
        EntryModel::Module { name_index: i }
    }
}

/// Adding a `Module` entry: its name can be read at the index, and the pool grows.
proof fn lemma_put_module(es: Seq<EntryModel>, name: Seq<u32>)
    requires
        good_pool(es),
    ensures
        put_module_spec(es, name) matches (Ok(i), es2) ==> pool_module(pool_slots(es2), i) == Ok::<Seq<u32>, Error>(name)
            && good_pool(es2) && extends(pool_slots(es), pool_slots(es2)),
{
    lemma_put_utf8(es, name);
    if let (Ok(j), es1) = put_utf8_spec(es, name) {
        let e = EntryModel::Module { name_index: j };
        lemma_put(es1, e);
        if let Ok((i, es2)) = put_spec(es1, e) {
            lemma_utf8_extends(pool_slots(es1), pool_slots(es2), j);
            lemma_extends_trans(pool_slots(es), pool_slots(es1), pool_slots(es2));
        }
    }
}

/// Adding a `Package` entry: its name can be read at the index, and the pool grows.
proof fn lemma_put_package(es: Seq<EntryModel>, name: Seq<u32>)
    requires
        good_pool(es),
    ensures
        put_package_spec(es, name) matches (Ok(i), es2) ==> pool_package(pool_slots(es2), i) == Ok::<Seq<u32>, Error>(name)
            && good_pool(es2) && extends(pool_slots(es), pool_slots(es2)),
{
    lemma_put_utf8(es, name);
    if let (Ok(j), es1) = put_utf8_spec(es, name) {
        let e = EntryModel::Package { name_index: j };
        lemma_put(es1, e);
        if let Ok((i, es2)) = put_spec(es1, e) {
            lemma_utf8_extends(pool_slots(es1), pool_slots(es2), j);
            lemma_extends_trans(pool_slots(es), pool_slots(es1), pool_slots(es2));
        }
    }
}

/// Adding a `Class` entry: its name can be read at the index, and the pool grows.
proof fn lemma_put_class(es: Seq<EntryModel>, name: Seq<u32>)
    requires
        good_pool(es),
    ensures
        put_class_spec(es, name) matches (Ok(i), es2) ==> pool_class(pool_slots(es2), i) == Ok::<Seq<u32>, Error>(name)
            && good_pool(es2) && extends(pool_slots(es), pool_slots(es2)),
{
    lemma_put_utf8(es, name);
    if let (Ok(j), es1) = put_utf8_spec(es, name) {
        let e = EntryModel::Class { name_index: j };
        lemma_put(es1, e);
        if let Ok((i, es2)) = put_spec(es1, e) {
            lemma_utf8_extends(pool_slots(es1), pool_slots(es2), j);
            lemma_extends_trans(pool_slots(es), pool_slots(es1), pool_slots(es2));
        }
    }
}

/// An index written at the end of `bytes`, in data that starts with the
/// bytes and the index, is read back.
pub proof fn lemma_index_at(bytes: Seq<u8>, i: u16, fb: Seq<u8>)
    requires
        is_prefix(bytes + u16_bytes(i), fb),
    ensures
        bytes.len() + 2 <= fb.len(),
        be_u16(fb, bytes.len() as int) == i,
{
    let p = bytes.len() as int;
    let w = bytes + u16_bytes(i);
    assert(fb[p] == w[p]);
    assert(fb[p + 1] == w[p + 1]);
    lemma_be_u16_at(fb, p, i);
}

/// Writing each item with `f` makes the state grow, from any good state.
pub open spec fn writer_grows<T>(f: spec_fn(WriteState, T) -> Result<WriteState, Error>) -> bool {
    forall|s: WriteState, x: T| #![trigger f(s, x)] good_pool(s.1) && f(s, x) is Ok ==> grows(s, f(s, x)->Ok_0)
}

/// What `f` writes, in the data `fb`, is read back by `item` with the pool `q`,
/// where `fb` holds what was written and `q` the entries added.
pub open spec fn writer_read_back<T>(f: spec_fn(WriteState, T) -> Result<WriteState, Error>,
    item: spec_fn(int) -> Result<(T, int), Error>, fb: Seq<u8>, q: Seq<Option<EntryModel>>) -> bool
{
    forall|s: WriteState, x: T| #![trigger f(s, x)]
        good_pool(s.1) && f(s, x) is Ok && is_prefix((f(s, x)->Ok_0).0, fb) && extends(pool_slots((f(s, x)->Ok_0).1), q)
            ==> item(s.0.len() as int) == Ok::<(T, int), Error>((x, (f(s, x)->Ok_0).0.len() as int))
}

/// Once writing failed, it stays failed.
pub proof fn lemma_each_err<T>(e: Error, items: Seq<T>, f: spec_fn(WriteState, T) -> Result<WriteState, Error>)
    ensures
        write_each(Err(e), items, f) == Err::<WriteState, Error>(e),
    decreases items.len(),
{
    if items.len() > 0 {
        lemma_each_err(e, items.skip(1), f);
    }
}

/// Writing items one after the other, and reading them back.
proof fn lemma_each_round_trip<T>(st: WriteState, items: Seq<T>, f: spec_fn(WriteState, T) -> Result<WriteState, Error>,
    item: spec_fn(int) -> Result<(T, int), Error>, fb: Seq<u8>, q: Seq<Option<EntryModel>>)
    requires
        good_pool(st.1),
        writer_grows(f),
        writer_read_back(f, item, fb, q),
        write_each(Ok(st), items, f) is Ok,
    ensures
        grows(st, write_each(Ok(st), items, f)->Ok_0) || items.len() == 0,
        items.len() == 0 ==> write_each(Ok(st), items, f) == Ok::<WriteState, Error>(st),
        ({
            let fin = write_each(Ok(st), items, f)->Ok_0;
            is_prefix(fin.0, fb) && extends(pool_slots(fin.1), q)
                ==> read_list(st.0.len() as int, items.len() as int, item) == Ok::<(Seq<T>, int), Error>((items, fin.0.len() as int))
        }),
    decreases items.len(),
{
    if items.len() == 0 {
        assert(items =~= Seq::<T>::empty());
    } else {
        if let Err(e) = f(st, items[0]) {
            lemma_each_err(e, items.skip(1), f);
        }
        let s1 = f(st, items[0])->Ok_0;
        assert(f(st, items[0]) is Ok);
        assert(grows(st, s1));
        let rest = items.skip(1);
        lemma_each_round_trip(s1, rest, f, item, fb, q);
        let fin = write_each(Ok(st), items, f)->Ok_0;
        assert(write_each(Ok(st), items, f) == write_each(Ok(s1), rest, f));
        if rest.len() > 0 {
            lemma_grows_trans(st, s1, fin);
        }
        if is_prefix(fin.0, fb) && extends(pool_slots(fin.1), q) {
            if rest.len() > 0 {
                lemma_prefix_trans(s1.0, fin.0, fb);
                lemma_extends_trans(pool_slots(s1.1), pool_slots(fin.1), q);
            }
            assert(item(st.0.len() as int) == Ok::<(T, int), Error>((items[0], s1.0.len() as int)));
            assert(seq![items[0]] + rest =~= items);
        }
    }
}

/// Writing a count and the items, and reading them back.
proof fn lemma_counted_round_trip<T>(st: WriteState, items: Seq<T>, f: spec_fn(WriteState, T) -> Result<WriteState, Error>,
    item: spec_fn(int) -> Result<(T, int), Error>, fb: Seq<u8>, q: Seq<Option<EntryModel>>)
    requires
        good_pool(st.1),
        writer_grows(f),
        writer_read_back(f, item, fb, q),
        write_counted(st, items, f) is Ok,
    ensures
        grows(st, write_counted(st, items, f)->Ok_0),
        ({
            let fin = write_counted(st, items, f)->Ok_0;
            is_prefix(fin.0, fb) && extends(pool_slots(fin.1), q)
                ==> read_counted(fb, st.0.len() as int, item) == Ok::<(Seq<T>, int), Error>((items, fin.0.len() as int))
        }),
{
    let s0 = (st.0 + u16_bytes(items.len() as u16), st.1);
    assert(is_prefix(st.0, s0.0)) by {
        assert(s0.0.take(st.0.len() as int) =~= st.0);
    }
    lemma_each_round_trip(s0, items, f, item, fb, q);
    let fin = write_counted(st, items, f)->Ok_0;
    if items.len() > 0 {
        lemma_grows_trans(st, s0, fin);
    }
    if is_prefix(fin.0, fb) && extends(pool_slots(fin.1), q) {
        if items.len() > 0 {
            lemma_prefix_trans(s0.0, fin.0, fb);
        }
        lemma_index_at(st.0, items.len() as u16, fb);
    }
}

/// Writing the index of a `Module` entry, and reading it back.
proof fn lemma_module_name_round_trip(fb: Seq<u8>, q: Seq<Option<EntryModel>>)
    ensures
        writer_grows(crate::simple_class_writer::module::module_name_writer()),
        writer_read_back(crate::simple_class_writer::module::module_name_writer(),
            crate::class_reader::module::module_name_item(fb, q), fb, q),
{
    let f = crate::simple_class_writer::module::module_name_writer();
    assert forall|s: WriteState, x: Seq<u32>| #![trigger f(s, x)] good_pool(s.1) && f(s, x) is Ok implies grows(s, f(s, x)->Ok_0) by {
        lemma_put_module(s.1, x);
        assert((s.0 + u16_bytes(put_module_spec(s.1, x).0->Ok_0)).take(s.0.len() as int) =~= s.0);
    }
    assert forall|s: WriteState, x: Seq<u32>| #![trigger f(s, x)]
        good_pool(s.1) && f(s, x) is Ok && is_prefix((f(s, x)->Ok_0).0, fb) && extends(pool_slots((f(s, x)->Ok_0).1), q)
        implies crate::class_reader::module::module_name_item(fb, q)(s.0.len() as int)
            == Ok::<(Seq<u32>, int), Error>((x, (f(s, x)->Ok_0).0.len() as int)) by {
        lemma_put_module(s.1, x);
        let (r, es2) = put_module_spec(s.1, x);
        let i = r->Ok_0;
        lemma_index_at(s.0, i, fb);
        lemma_named_extends(pool_slots(es2), q, i);
    }
}

/// Writing the index of a `Class` entry, and reading it back.
proof fn lemma_class_name_round_trip(fb: Seq<u8>, q: Seq<Option<EntryModel>>)
    ensures
        writer_grows(crate::simple_class_writer::module::class_name_writer()),
        writer_read_back(crate::simple_class_writer::module::class_name_writer(),
            crate::class_reader::module::class_name_item(fb, q), fb, q),
{
    let f = crate::simple_class_writer::module::class_name_writer();
    assert forall|s: WriteState, x: Seq<u32>| #![trigger f(s, x)] good_pool(s.1) && f(s, x) is Ok implies grows(s, f(s, x)->Ok_0) by {
        lemma_put_class(s.1, x);
        assert((s.0 + u16_bytes(put_class_spec(s.1, x).0->Ok_0)).take(s.0.len() as int) =~= s.0);
    }
    assert forall|s: WriteState, x: Seq<u32>| #![trigger f(s, x)]
        good_pool(s.1) && f(s, x) is Ok && is_prefix((f(s, x)->Ok_0).0, fb) && extends(pool_slots((f(s, x)->Ok_0).1), q)
        implies crate::class_reader::module::class_name_item(fb, q)(s.0.len() as int)
            == Ok::<(Seq<u32>, int), Error>((x, (f(s, x)->Ok_0).0.len() as int)) by {
        lemma_put_class(s.1, x);
        let (r, es2) = put_class_spec(s.1, x);
        let i = r->Ok_0;
        lemma_index_at(s.0, i, fb);
        lemma_named_extends(pool_slots(es2), q, i);
    }
}

/// The start of what is a prefix is a prefix.
pub proof fn lemma_prefix_of_append(a: Seq<u8>, c: Seq<u8>, fb: Seq<u8>)
    requires
        is_prefix(a + c, fb),
    ensures
        is_prefix(a, fb),
{
    assert(is_prefix(a, a + c)) by {
        assert((a + c).take(a.len() as int) =~= a);
    }
    lemma_prefix_trans(a, a + c, fb);
}

/// Appending keeps what was there as a prefix.
pub proof fn lemma_prefix_append(a: Seq<u8>, c: Seq<u8>)
    ensures
        is_prefix(a, a + c),
{
    assert((a + c).take(a.len() as int) =~= a);
}

/// Adding an optional string: the index zero for `None`; a string can be read
/// at the index; the pool grows.
proof fn lemma_put_optional_utf8(es: Seq<EntryModel>, v: Option<Seq<u32>>)
    requires
        good_pool(es),
    ensures
        put_optional_utf8_spec(es, v) matches (Ok(i), es2) ==> good_pool(es2) && extends(pool_slots(es), pool_slots(es2))
            && forall|q: Seq<Option<EntryModel>>| extends(pool_slots(es2), q) ==> #[trigger] pool_optional_utf8(q, i) == Ok::<Option<Seq<u32>>, Error>(v),
{
    match v {
        Some(x) => {
            lemma_put_utf8(es, x);
            if let (Ok(i), es2) = put_utf8_spec(es, x) {
                assert forall|q: Seq<Option<EntryModel>>| extends(pool_slots(es2), q) implies #[trigger] pool_optional_utf8(q, i) == Ok::<Option<Seq<u32>>, Error>(v) by {
                    lemma_utf8_extends(pool_slots(es2), q, i);
                    assert(pool_slots(es2)[0] is None);
                }
            }
        },
        None => {},
    }
}

/// Writing a `requires` entry, and reading it back.
proof fn lemma_requires_round_trip(fb: Seq<u8>, q: Seq<Option<EntryModel>>)
    ensures
        writer_grows(crate::simple_class_writer::module::requires_writer()),
        writer_read_back(crate::simple_class_writer::module::requires_writer(),
            crate::class_reader::module::requires_item(fb, q), fb, q),
{
    let f = crate::simple_class_writer::module::requires_writer();
    assert forall|s: WriteState, x: RequiresModel| #![trigger f(s, x)] good_pool(s.1) && f(s, x) is Ok implies
        grows(s, f(s, x)->Ok_0)
        && (is_prefix((f(s, x)->Ok_0).0, fb) && extends(pool_slots((f(s, x)->Ok_0).1), q) ==>
            crate::class_reader::module::requires_item(fb, q)(s.0.len() as int)
            == Ok::<(RequiresModel, int), Error>((x, (f(s, x)->Ok_0).0.len() as int))) by {
        lemma_put_module(s.1, x.name);
        let (r1, es1) = put_module_spec(s.1, x.name);
        let i = r1->Ok_0;
        let b1 = s.0 + u16_bytes(i);
        let flags = module_requires_flags_bits(x.flags);
        let b2 = b1 + u16_bytes(flags);
        lemma_put_optional_utf8(es1, x.version);
        let (r2, es2) = put_optional_utf8_spec(es1, x.version);
        let j = r2->Ok_0;
        let b3 = b2 + u16_bytes(j);
        assert(f(s, x) == Ok::<WriteState, Error>((b3, es2)));
        lemma_prefix_append(s.0, u16_bytes(i));
        lemma_prefix_append(b1, u16_bytes(flags));
        lemma_prefix_append(b2, u16_bytes(j));
        lemma_prefix_trans(s.0, b1, b2);
        lemma_prefix_trans(s.0, b2, b3);
        lemma_extends_trans(pool_slots(s.1), pool_slots(es1), pool_slots(es2));
        if is_prefix(b3, fb) && extends(pool_slots(es2), q) {
            lemma_prefix_trans(b2, b3, fb);
            lemma_prefix_trans(b1, b2, fb);
            lemma_index_at(s.0, i, fb);
            lemma_index_at(b1, flags, fb);
            lemma_index_at(b2, j, fb);
            lemma_extends_trans(pool_slots(es1), pool_slots(es2), q);
            lemma_named_extends(pool_slots(es1), q, i);
            lemma_module_requires_flags_round_trip(x.flags);
            assert(pool_optional_utf8(q, j) == Ok::<Option<Seq<u32>>, Error>(x.version));
        }
    }
}

/// Writing an `exports` entry, and reading it back.
proof fn lemma_exports_round_trip(fb: Seq<u8>, q: Seq<Option<EntryModel>>)
    ensures
        writer_grows(crate::simple_class_writer::module::exports_writer()),
        writer_read_back(crate::simple_class_writer::module::exports_writer(),
            crate::class_reader::module::exports_item(fb, q), fb, q),
{
    let f = crate::simple_class_writer::module::exports_writer();
    let g = crate::simple_class_writer::module::module_name_writer();
    let item = crate::class_reader::module::module_name_item(fb, q);
    lemma_module_name_round_trip(fb, q);
    assert forall|s: WriteState, x: ExportsModel| #![trigger f(s, x)] good_pool(s.1) && f(s, x) is Ok implies
        grows(s, f(s, x)->Ok_0)
        && (is_prefix((f(s, x)->Ok_0).0, fb) && extends(pool_slots((f(s, x)->Ok_0).1), q) ==>
            crate::class_reader::module::exports_item(fb, q)(s.0.len() as int)
            == Ok::<(ExportsModel, int), Error>((x, (f(s, x)->Ok_0).0.len() as int))) by {
        lemma_put_package(s.1, x.name);
        let (r1, es1) = put_package_spec(s.1, x.name);
        let i = r1->Ok_0;
        let b1 = s.0 + u16_bytes(i);
        let flags = module_exports_flags_bits(x.flags);
        let st2 = (b1 + u16_bytes(flags), es1);
        assert(f(s, x) == write_counted(st2, x.to, g));
        lemma_counted_round_trip(st2, x.to, g, item, fb, q);
        let fin = write_counted(st2, x.to, g)->Ok_0;
        lemma_prefix_append(s.0, u16_bytes(i));
        lemma_prefix_append(b1, u16_bytes(flags));
        lemma_prefix_trans(s.0, b1, st2.0);
        assert(grows(s, st2));
        lemma_grows_trans(s, st2, fin);
        if is_prefix(fin.0, fb) && extends(pool_slots(fin.1), q) {
            lemma_prefix_trans(st2.0, fin.0, fb);
            lemma_prefix_trans(b1, st2.0, fb);
            lemma_index_at(s.0, i, fb);
            lemma_index_at(b1, flags, fb);
            lemma_extends_trans(pool_slots(es1), pool_slots(fin.1), q);
            lemma_named_extends(pool_slots(es1), q, i);
            lemma_module_exports_flags_round_trip(x.flags);
        }
    }
}

/// Writing an `opens` entry, and reading it back.
proof fn lemma_opens_round_trip(fb: Seq<u8>, q: Seq<Option<EntryModel>>)
    ensures
        writer_grows(crate::simple_class_writer::module::opens_writer()),
        writer_read_back(crate::simple_class_writer::module::opens_writer(),
            crate::class_reader::module::opens_item(fb, q), fb, q),
{
    let f = crate::simple_class_writer::module::opens_writer();
    let g = crate::simple_class_writer::module::module_name_writer();
    let item = crate::class_reader::module::module_name_item(fb, q);
    lemma_module_name_round_trip(fb, q);
    assert forall|s: WriteState, x: OpensModel| #![trigger f(s, x)] good_pool(s.1) && f(s, x) is Ok implies
        grows(s, f(s, x)->Ok_0)
        && (is_prefix((f(s, x)->Ok_0).0, fb) && extends(pool_slots((f(s, x)->Ok_0).1), q) ==>
            crate::class_reader::module::opens_item(fb, q)(s.0.len() as int)
            == Ok::<(OpensModel, int), Error>((x, (f(s, x)->Ok_0).0.len() as int))) by {
        lemma_put_package(s.1, x.name);
        let (r1, es1) = put_package_spec(s.1, x.name);
        let i = r1->Ok_0;
        let b1 = s.0 + u16_bytes(i);
        let flags = module_opens_flags_bits(x.flags);
        let st2 = (b1 + u16_bytes(flags), es1);
        assert(f(s, x) == write_counted(st2, x.to, g));
        lemma_counted_round_trip(st2, x.to, g, item, fb, q);
        let fin = write_counted(st2, x.to, g)->Ok_0;
        lemma_prefix_append(s.0, u16_bytes(i));
        lemma_prefix_append(b1, u16_bytes(flags));
        lemma_prefix_trans(s.0, b1, st2.0);
        assert(grows(s, st2));
        lemma_grows_trans(s, st2, fin);
        if is_prefix(fin.0, fb) && extends(pool_slots(fin.1), q) {
            lemma_prefix_trans(st2.0, fin.0, fb);
            lemma_prefix_trans(b1, st2.0, fb);
            lemma_index_at(s.0, i, fb);
            lemma_index_at(b1, flags, fb);
            lemma_extends_trans(pool_slots(es1), pool_slots(fin.1), q);
            lemma_named_extends(pool_slots(es1), q, i);
            lemma_module_opens_flags_round_trip(x.flags);
        }
    }
}

/// Writing a `provides` entry, and reading it back.
proof fn lemma_provides_round_trip(fb: Seq<u8>, q: Seq<Option<EntryModel>>)
    ensures
        writer_grows(crate::simple_class_writer::module::provides_writer()),
        writer_read_back(crate::simple_class_writer::module::provides_writer(),
            crate::class_reader::module::provides_item(fb, q), fb, q),
{
    let f = crate::simple_class_writer::module::provides_writer();
    let g = crate::simple_class_writer::module::class_name_writer();
    let item = crate::class_reader::module::class_name_item(fb, q);
    lemma_class_name_round_trip(fb, q);
    assert forall|s: WriteState, x: ProvidesModel| #![trigger f(s, x)] good_pool(s.1) && f(s, x) is Ok implies
        grows(s, f(s, x)->Ok_0)
        && (is_prefix((f(s, x)->Ok_0).0, fb) && extends(pool_slots((f(s, x)->Ok_0).1), q) ==>
            crate::class_reader::module::provides_item(fb, q)(s.0.len() as int)
            == Ok::<(ProvidesModel, int), Error>((x, (f(s, x)->Ok_0).0.len() as int))) by {
        lemma_put_class(s.1, x.name);
        let (r1, es1) = put_class_spec(s.1, x.name);
        let i = r1->Ok_0;
        let st2 = (s.0 + u16_bytes(i), es1);
        assert(f(s, x) == write_counted(st2, x.with, g));
        lemma_counted_round_trip(st2, x.with, g, item, fb, q);
        let fin = write_counted(st2, x.with, g)->Ok_0;
        lemma_prefix_append(s.0, u16_bytes(i));
        assert(grows(s, st2));
        lemma_grows_trans(s, st2, fin);
        if is_prefix(fin.0, fb) && extends(pool_slots(fin.1), q) {
            lemma_prefix_trans(st2.0, fin.0, fb);
            lemma_index_at(s.0, i, fb);
            lemma_extends_trans(pool_slots(es1), pool_slots(fin.1), q);
            lemma_named_extends(pool_slots(es1), q, i);
        }
    }
}

/// The states after each part of writing a `Module` attribute.
proof fn lemma_module_steps(m: ModuleModel, bytes: Seq<u8>, es: Seq<EntryModel>)
    -> (ss: (WriteState, WriteState, WriteState, WriteState, WriteState, WriteState))
    requires
        write_module_spec((bytes, es), m) is Ok,
    ensures
        module_name_writer()((bytes, es), m.name) == Ok::<WriteState, Error>(ss.0),
        put_optional_utf8_spec(ss.0.1, m.version).0 is Ok,
        ss.1 == (ss.0.0 + u16_bytes(module_flags_bits(m.flags)) + u16_bytes(put_optional_utf8_spec(ss.0.1, m.version).0->Ok_0),
            put_optional_utf8_spec(ss.0.1, m.version).1),
        write_counted(ss.1, m.requires, requires_writer()) == Ok::<WriteState, Error>(ss.2),
        write_counted(ss.2, m.exports, exports_writer()) == Ok::<WriteState, Error>(ss.3),
        write_counted(ss.3, m.opens, opens_writer()) == Ok::<WriteState, Error>(ss.4),
        write_counted(ss.4, m.uses, class_name_writer()) == Ok::<WriteState, Error>(ss.5),
        write_counted(ss.5, m.provides, provides_writer()) == write_module_spec((bytes, es), m),
{
    reveal(write_module_spec);
    let s0 = (bytes, es);
    let s1 = module_name_writer()(s0, m.name)->Ok_0;
    let (r, es2) = put_optional_utf8_spec(s1.1, m.version);
    let s2 = (s1.0 + u16_bytes(module_flags_bits(m.flags)) + u16_bytes(r->Ok_0), es2);
    let s3 = write_counted(s2, m.requires, requires_writer())->Ok_0;
    let s4 = write_counted(s3, m.exports, exports_writer())->Ok_0;
    let s5 = write_counted(s4, m.opens, opens_writer())->Ok_0;
    let s6 = write_counted(s5, m.uses, class_name_writer())->Ok_0;
    (s1, s2, s3, s4, s5, s6)
}

/// Along a chain of growing states whose last one is a prefix of `fb`, with
/// a pool that `q` extends, every state is a prefix of `fb` with a pool that
/// `q` extends.
proof fn lemma_chain(ss: Seq<WriteState>, fb: Seq<u8>, q: Seq<Option<EntryModel>>)
    requires
        ss.len() > 0,
        forall|i: int| 0 <= i < ss.len() - 1 ==> grows(#[trigger] ss[i], ss[i + 1]),
        is_prefix(ss.last().0, fb),
        extends(pool_slots(ss.last().1), q),
    ensures
        forall|i: int| 0 <= i < ss.len() ==> is_prefix(#[trigger] ss[i].0, fb) && extends(pool_slots(ss[i].1), q),
    decreases ss.len(),
{
    if ss.len() > 1 {
        let t = ss.drop_first();
        assert forall|i: int| 0 <= i < t.len() - 1 implies grows(#[trigger] t[i], t[i + 1]) by {
            assert(t[i] == ss[i + 1]);
            assert(t[i + 1] == ss[i + 2]);
        }
        assert(t.last() == ss.last());
        lemma_chain(t, fb, q);
        assert(t[0] == ss[1]);
        assert(grows(ss[0], ss[1]));
        lemma_prefix_trans(ss[0].0, ss[1].0, fb);
        lemma_extends_trans(pool_slots(ss[0].1), pool_slots(ss[1].1), q);
        assert forall|i: int| 0 <= i < ss.len() implies is_prefix(#[trigger] ss[i].0, fb) && extends(pool_slots(ss[i].1), q) by {
            if i > 0 {
                assert(ss[i] == t[i - 1]);
            }
        }
    }
}

/// Reading a `Module` attribute whose parts are read back one by one.
proof fn lemma_read_module_parts(fb: Seq<u8>, pos: int, q: Seq<Option<EntryModel>>, m: ModuleModel,
    p1: int, p2: int, p3: int, p4: int, p5: int, p6: int, end: int, flags: u16, j: u16)
    requires
        index_then(fb, pos, pool_module(q, be_u16(fb, pos))) == Ok::<(Seq<u32>, int), Error>((m.name, p1)),
        p1 + 4 <= fb.len(),
        be_u16(fb, p1) == flags,
        crate::tree::module::module_flags_of(flags) == m.flags,
        be_u16(fb, p1 + 2) == j,
        pool_optional_utf8(q, j) == Ok::<Option<Seq<u32>>, Error>(m.version),
        p2 == p1 + 4,
        read_counted(fb, p2, requires_item(fb, q)) == Ok::<(Seq<RequiresModel>, int), Error>((m.requires, p3)),
        read_counted(fb, p3, exports_item(fb, q)) == Ok::<(Seq<ExportsModel>, int), Error>((m.exports, p4)),
        read_counted(fb, p4, opens_item(fb, q)) == Ok::<(Seq<OpensModel>, int), Error>((m.opens, p5)),
        read_counted(fb, p5, class_name_item(fb, q)) == Ok::<(Seq<Seq<u32>>, int), Error>((m.uses, p6)),
        read_counted(fb, p6, provides_item(fb, q)) == Ok::<(Seq<ProvidesModel>, int), Error>((m.provides, end)),
    ensures
        read_module_at(fb, pos, q) == Ok::<(ModuleModel, int), Error>((m, end)),
{
}

/// Writing a `Module` attribute and reading it back gives the module.
///
/// The bytes written after `bytes`, read from where they start, with any
/// data after them and with a pool that holds the entries the writing left in
/// the pool at their indices, give the module and the position after the
/// attribute. The pool the writing started from must have no entry twice and
/// fit the limit on its size, as every pool the writer builds does.
#[verifier::rlimit(50)]
#[verifier::spinoff_prover]
pub proof fn lemma_module_write_read(m: ModuleModel, bytes: Seq<u8>, es: Seq<EntryModel>, q: Seq<Option<EntryModel>>,
    after: Seq<u8>)
    requires
        good_pool(es),
        write_module_spec((bytes, es), m) is Ok,
        extends(pool_slots((write_module_spec((bytes, es), m)->Ok_0).1), q),
    ensures
        read_module_at((write_module_spec((bytes, es), m)->Ok_0).0 + after, bytes.len() as int, q)
            == Ok::<(ModuleModel, int), Error>((m, (write_module_spec((bytes, es), m)->Ok_0).0.len() as int)),
{
    let fin = write_module_spec((bytes, es), m)->Ok_0;
    let fb = fin.0 + after;
    let s0 = (bytes, es);
    let (s1, s2, s3, s4, s5, s6) = lemma_module_steps(m, bytes, es);
    let flags = module_flags_bits(m.flags);
    let j = put_optional_utf8_spec(s1.1, m.version).0->Ok_0;
    assert(grows(s0, s1)) by {
        lemma_module_name_round_trip(fb, q);
    }
    lemma_put_optional_utf8(s1.1, m.version);
    assert(grows(s1, s2)) by {
        lemma_prefix_append(s1.0, u16_bytes(flags));
        lemma_prefix_append(s1.0 + u16_bytes(flags), u16_bytes(j));
        lemma_prefix_trans(s1.0, s1.0 + u16_bytes(flags), s2.0);
    }
    assert(grows(s2, s3)) by {
        lemma_requires_round_trip(fb, q);
        lemma_counted_round_trip(s2, m.requires, requires_writer(), requires_item(fb, q), fb, q);
    }
    assert(grows(s3, s4)) by {
        lemma_exports_round_trip(fb, q);
        lemma_counted_round_trip(s3, m.exports, exports_writer(), exports_item(fb, q), fb, q);
    }
    assert(grows(s4, s5)) by {
        lemma_opens_round_trip(fb, q);
        lemma_counted_round_trip(s4, m.opens, opens_writer(), opens_item(fb, q), fb, q);
    }
    assert(grows(s5, s6)) by {
        lemma_class_name_round_trip(fb, q);
        lemma_counted_round_trip(s5, m.uses, class_name_writer(), class_name_item(fb, q), fb, q);
    }
    assert(grows(s6, fin)) by {
        lemma_provides_round_trip(fb, q);
        lemma_counted_round_trip(s6, m.provides, provides_writer(), provides_item(fb, q), fb, q);
    }
    // every intermediate state is a prefix of the data, with a pool that `q` extends
    let chain = seq![s0, s1, s2, s3, s4, s5, s6, fin];
    assert forall|i: int| 0 <= i < chain.len() - 1 implies grows(#[trigger] chain[i], chain[i + 1]) by {
        if i == 0 {} else if i == 1 {} else if i == 2 {} else if i == 3 {} else if i == 4 {} else if i == 5 {} else {}
    }
    lemma_prefix_append(fin.0, after);
    lemma_chain(chain, fb, q);
    assert(chain[1] == s1 && chain[2] == s2 && chain[3] == s3 && chain[4] == s4 && chain[5] == s5 && chain[6] == s6);
    assert(index_then(fb, bytes.len() as int, pool_module(q, be_u16(fb, bytes.len() as int)))
        == Ok::<(Seq<u32>, int), Error>((m.name, s1.0.len() as int))) by {
        lemma_module_name_round_trip(fb, q);
    }
    assert(read_counted(fb, s2.0.len() as int, requires_item(fb, q)) == Ok::<(Seq<RequiresModel>, int), Error>((m.requires, s3.0.len() as int))) by {
        lemma_requires_round_trip(fb, q);
        lemma_counted_round_trip(s2, m.requires, requires_writer(), requires_item(fb, q), fb, q);
    }
    assert(read_counted(fb, s3.0.len() as int, exports_item(fb, q)) == Ok::<(Seq<ExportsModel>, int), Error>((m.exports, s4.0.len() as int))) by {
        lemma_exports_round_trip(fb, q);
        lemma_counted_round_trip(s3, m.exports, exports_writer(), exports_item(fb, q), fb, q);
    }
    assert(read_counted(fb, s4.0.len() as int, opens_item(fb, q)) == Ok::<(Seq<OpensModel>, int), Error>((m.opens, s5.0.len() as int))) by {
        lemma_opens_round_trip(fb, q);
        lemma_counted_round_trip(s4, m.opens, opens_writer(), opens_item(fb, q), fb, q);
    }
    assert(read_counted(fb, s5.0.len() as int, class_name_item(fb, q)) == Ok::<(Seq<Seq<u32>>, int), Error>((m.uses, s6.0.len() as int))) by {
        lemma_class_name_round_trip(fb, q);
        lemma_counted_round_trip(s5, m.uses, class_name_writer(), class_name_item(fb, q), fb, q);
    }
    assert(read_counted(fb, s6.0.len() as int, provides_item(fb, q)) == Ok::<(Seq<ProvidesModel>, int), Error>((m.provides, fin.0.len() as int))) by {
        lemma_provides_round_trip(fb, q);
        lemma_counted_round_trip(s6, m.provides, provides_writer(), provides_item(fb, q), fb, q);
    }
    // the flags and the version
    lemma_prefix_of_append(s1.0 + u16_bytes(flags), u16_bytes(j), fb);
    lemma_index_at(s1.0, flags, fb);
    lemma_index_at(s1.0 + u16_bytes(flags), j, fb);
    lemma_module_flags_round_trip(m.flags);
    assert(s2.0.len() == s1.0.len() + 4);
    lemma_read_module_parts(fb, bytes.len() as int, q, m, s1.0.len() as int, s2.0.len() as int, s3.0.len() as int,
        s4.0.len() as int, s5.0.len() as int, s6.0.len() as int, fin.0.len() as int, flags, j);
}

} // verus!
