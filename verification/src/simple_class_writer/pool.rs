//! The constant pool as it is built while writing a class file: entries are
//! added once each, and every entry is given the pool index it will have.
use vstd::prelude::*;
use crate::bytes::{u16_bytes, u32_bytes, u64_bytes, be_u16, be_u32, be_u64, write_u8, write_u16, write_i32,
    write_u32, write_i64, write_u64, write_usize_as_u16, write_u8_slice, lemma_u16_round_trip, lemma_u32_round_trip,
    lemma_u64_round_trip};
use crate::class_reader::pool::{EntryModel, PoolEntry, is_wide, entry_slots, pool_get, pool_utf8, pool_class,
    pool_package, pool_module, pool_name_and_type, pool_field_ref, pool_method_ref, pool_interface_method_ref,
    pool_method_or_interface_ref, pool_integer, pool_long, pool_method_handle, parse_entry, read_entries, read_pool,
    UTF8, INTEGER, FLOAT, LONG, DOUBLE, CLASS, STRING, FIELD_REF, METHOD_REF, INTERFACE_METHOD_REF, NAME_AND_TYPE,
    METHOD_HANDLE, METHOD_TYPE, DYNAMIC, INVOKE_DYNAMIC, MODULE, PACKAGE};
use crate::tree::class::ClassName;
use crate::tree::member::{ConstantModel, ConstantValue};
use crate::class_reader::field::pool_constant;
use crate::tree::code::{Handle, HandleModel};
use crate::tree::field::{FieldRef, RefModel};
use crate::tree::method::MethodRef;
use crate::tree::module::{PackageName, ModuleName};
use crate::error::Error;
use crate::jstring::{JavaString, encode, decode, well_formed_code_points, from_string_to_vec, lemma_decode_encode};

verus! {

/// The number of pool slots an entry takes.
pub open spec fn width(e: EntryModel) -> int {
    if is_wide(e) { 2 } else { 1 }
}

/// The pool slots taken by `es`, in order.
pub open spec fn slots(es: Seq<EntryModel>) -> Seq<Option<EntryModel>>
    decreases es.len(),
{
    if es.len() == 0 {
        Seq::empty()
    } else {
        entry_slots(es[0]) + slots(es.skip(1))
    }
}

/// The value written as `constant_pool_count`: one more than the number of slots.
pub open spec fn pool_count(es: Seq<EntryModel>) -> int {
    1 + slots(es).len() as int
}

/// The pool as a reader sees it: an empty slot at index zero, then the slots of the entries.
pub open spec fn pool_slots(es: Seq<EntryModel>) -> Seq<Option<EntryModel>> {
    seq![None] + slots(es)
}

/// The pool index of the entry at position `k` of `es`.
pub open spec fn slot_of(es: Seq<EntryModel>, k: int) -> int {
    1 + slots(es.take(k)).len() as int
}

/// No entry occurs twice.
pub open spec fn no_dup(es: Seq<EntryModel>) -> bool {
    forall|i: int, j: int| 0 <= i < j < es.len() ==> es[i] != es[j]
}

/// Every slot of `p` is kept, at the same index, in `q`.
pub open spec fn extends(p: Seq<Option<EntryModel>>, q: Seq<Option<EntryModel>>) -> bool {
    p.len() <= q.len() && forall|i: int| 0 <= i < p.len() ==> q[i] == p[i]
}

/// Adding `e` to the pool `es`: the index of `e` and the new pool. An entry
/// that is there already keeps its index; a new one goes at the end, unless
/// the pool would then have more than 65535 slots.
pub open spec fn put_spec(es: Seq<EntryModel>, e: EntryModel) -> Result<(u16, Seq<EntryModel>), Error> {
    if es.contains(e) {
        Ok((slot_of(es, es.index_of(e)) as u16, es))
    } else if pool_count(es) + width(e) > 0xFFFF {
        Err(Error::PoolOverflow)
    } else {
        Ok((pool_count(es) as u16, es.push(e)))
    }
}

/// The outcome of [`put_spec`] on `es` as a result and the pool after it.
pub open spec fn step(es: Seq<EntryModel>, r: Result<(u16, Seq<EntryModel>), Error>) -> (Result<u16, Error>, Seq<EntryModel>) {
    match r {
        Ok((i, es2)) => (Ok(i), es2),
        Err(x) => (Err(x), es),
    }
}

/// Adding a `Utf8` entry.
pub open spec fn put_utf8_spec(es: Seq<EntryModel>, s: Seq<u32>) -> (Result<u16, Error>, Seq<EntryModel>) {
    step(es, put_spec(es, EntryModel::Utf8 { string: s }))
}

/// Adding a `Class` entry and the `Utf8` entry of its name.
pub open spec fn put_class_spec(es: Seq<EntryModel>, name: Seq<u32>) -> (Result<u16, Error>, Seq<EntryModel>) {
    match put_utf8_spec(es, name) {
        (Ok(i), es1) => step(es1, put_spec(es1, EntryModel::Class { name_index: i })),
        (Err(x), es1) => (Err(x), es1),
    }
}

/// Adding a `Package` entry and the `Utf8` entry of its name.
pub open spec fn put_package_spec(es: Seq<EntryModel>, name: Seq<u32>) -> (Result<u16, Error>, Seq<EntryModel>) {
    match put_utf8_spec(es, name) {
        (Ok(i), es1) => step(es1, put_spec(es1, EntryModel::Package { name_index: i })),
        (Err(x), es1) => (Err(x), es1),
    }
}

/// Adding a `Module` entry and the `Utf8` entry of its name.
pub open spec fn put_module_spec(es: Seq<EntryModel>, name: Seq<u32>) -> (Result<u16, Error>, Seq<EntryModel>) {
    match put_utf8_spec(es, name) {
        (Ok(i), es1) => step(es1, put_spec(es1, EntryModel::Module { name_index: i })),
        (Err(x), es1) => (Err(x), es1),
    }
}

/// Adding a `NameAndType` entry and the `Utf8` entries of the name and the descriptor.
pub open spec fn put_name_and_type_spec(es: Seq<EntryModel>, name: Seq<u32>, desc: Seq<u32>) -> (Result<u16, Error>, Seq<EntryModel>) {
    match put_utf8_spec(es, name) {
        (Ok(i), es1) => match put_utf8_spec(es1, desc) {
            (Ok(j), es2) => step(es2, put_spec(es2, EntryModel::NameAndType { name_index: i, descriptor_index: j })),
            (Err(x), es2) => (Err(x), es2),
        },
        (Err(x), es1) => (Err(x), es1),
    }
}

/// The reference entry with tag `tag` (`FIELD_REF`, `METHOD_REF` or `INTERFACE_METHOD_REF`).
pub open spec fn ref_entry(tag: u8, class_index: u16, name_and_type_index: u16) -> EntryModel {
    if tag == FIELD_REF {
        EntryModel::FieldRef { class_index, name_and_type_index }
    } else if tag == METHOD_REF {
        EntryModel::MethodRef { class_index, name_and_type_index }
    } else {
        EntryModel::InterfaceMethodRef { class_index, name_and_type_index }
    }
}

/// Adding a reference entry with tag `tag`, with its class and its name and type.
pub open spec fn put_ref_spec(es: Seq<EntryModel>, r: RefModel, tag: u8) -> (Result<u16, Error>, Seq<EntryModel>) {
    match put_class_spec(es, r.class) {
        (Ok(c), es1) => match put_name_and_type_spec(es1, r.name, r.desc) {
            (Ok(nt), es2) => step(es2, put_spec(es2, ref_entry(tag, c, nt))),
            (Err(x), es2) => (Err(x), es2),
        },
        (Err(x), es1) => (Err(x), es1),
    }
}

/// The tag of a method reference: `INTERFACE_METHOD_REF` for a method of an interface.
pub open spec fn method_tag(is_interface: bool) -> u8 {
    if is_interface { INTERFACE_METHOD_REF } else { METHOD_REF }
}

/// The reference kind of a handle and the outcome of adding what it refers to.
pub open spec fn put_handle_target_spec(es: Seq<EntryModel>, h: HandleModel) -> (u8, (Result<u16, Error>, Seq<EntryModel>)) {
    match h {
        HandleModel::GetField(f) => (1, put_ref_spec(es, f, FIELD_REF)),
        HandleModel::GetStatic(f) => (2, put_ref_spec(es, f, FIELD_REF)),
        HandleModel::PutField(f) => (3, put_ref_spec(es, f, FIELD_REF)),
        HandleModel::PutStatic(f) => (4, put_ref_spec(es, f, FIELD_REF)),
        HandleModel::InvokeVirtual(m) => (5, put_ref_spec(es, m, METHOD_REF)),
        HandleModel::InvokeStatic(m, i) => (6, put_ref_spec(es, m, method_tag(i))),
        HandleModel::InvokeSpecial(m, i) => (7, put_ref_spec(es, m, method_tag(i))),
        HandleModel::NewInvokeSpecial(m) => (8, put_ref_spec(es, m, METHOD_REF)),
        HandleModel::InvokeInterface(m) => (9, put_ref_spec(es, m, INTERFACE_METHOD_REF)),
    }
}

/// Adding a `MethodHandle` entry and what it refers to.
pub open spec fn put_method_handle_spec(es: Seq<EntryModel>, h: HandleModel) -> (Result<u16, Error>, Seq<EntryModel>) {
    match put_handle_target_spec(es, h) {
        (k, (Ok(i), es1)) => step(es1, put_spec(es1, EntryModel::MethodHandle { reference_kind: k, reference_index: i })),
        (_, (Err(x), es1)) => (Err(x), es1),
    }
}

/// Adding a `String` entry and the `Utf8` entry of its contents.
pub open spec fn put_string_spec(es: Seq<EntryModel>, s: Seq<u32>) -> (Result<u16, Error>, Seq<EntryModel>) {
    match put_utf8_spec(es, s) {
        (Ok(i), es1) => step(es1, put_spec(es1, EntryModel::String { string_index: i })),
        (Err(x), es1) => (Err(x), es1),
    }
}

/// Adding the entry of the value of a `ConstantValue` attribute.
pub open spec fn put_constant_spec(es: Seq<EntryModel>, c: ConstantModel) -> (Result<u16, Error>, Seq<EntryModel>) {
    match c {
        ConstantModel::Integer(v) => step(es, put_spec(es, EntryModel::Integer { bytes: v })),
        ConstantModel::Float(v) => step(es, put_spec(es, EntryModel::Float { bytes: v })),
        ConstantModel::Long(v) => step(es, put_spec(es, EntryModel::Long { bytes: v })),
        ConstantModel::Double(v) => step(es, put_spec(es, EntryModel::Double { bytes: v })),
        ConstantModel::String(s) => put_string_spec(es, s),
    }
}

/// `extends` is transitive.
pub proof fn lemma_extends_trans(p: Seq<Option<EntryModel>>, q: Seq<Option<EntryModel>>, r: Seq<Option<EntryModel>>)
    requires
        extends(p, q),
        extends(q, r),
    ensures
        extends(p, r),
{
    assert forall|i: int| 0 <= i < p.len() implies r[i] == p[i] by {
        assert(q[i] == p[i]);
    }
}

/// An entry that is in `p` is in every pool that extends `p`, at the same index.
pub proof fn lemma_get_extends(p: Seq<Option<EntryModel>>, q: Seq<Option<EntryModel>>, i: u16)
    requires
        extends(p, q),
        pool_get(p, i) is Ok,
    ensures
        pool_get(q, i) == pool_get(p, i),
{
    assert(q[i as int] == p[i as int]);
}

/// A `Utf8` lookup that succeeds in `p` gives the same in every pool that extends `p`.
pub proof fn lemma_utf8_extends(p: Seq<Option<EntryModel>>, q: Seq<Option<EntryModel>>, i: u16)
    requires
        extends(p, q),
        pool_utf8(p, i) is Ok,
    ensures
        pool_utf8(q, i) == pool_utf8(p, i),
{
    lemma_get_extends(p, q, i);
}

/// A lookup of a name-carrying entry that succeeds in `p` gives the same in every pool that extends `p`.
pub proof fn lemma_named_extends(p: Seq<Option<EntryModel>>, q: Seq<Option<EntryModel>>, i: u16)
    requires
        extends(p, q),
        pool_get(p, i) is Ok,
    ensures
        pool_class(p, i) is Ok ==> pool_class(q, i) == pool_class(p, i),
        pool_package(p, i) is Ok ==> pool_package(q, i) == pool_package(p, i),
        pool_module(p, i) is Ok ==> pool_module(q, i) == pool_module(p, i),
        pool_name_and_type(p, i) is Ok ==> pool_name_and_type(q, i) == pool_name_and_type(p, i),
{
    lemma_get_extends(p, q, i);
    match pool_get(p, i).unwrap() {
        EntryModel::Class { name_index } => {
            if pool_utf8(p, name_index) is Ok {
                lemma_utf8_extends(p, q, name_index);
            }
        },
        EntryModel::Package { name_index } => {
            if pool_utf8(p, name_index) is Ok {
                lemma_utf8_extends(p, q, name_index);
            }
        },
        EntryModel::Module { name_index } => {
            if pool_utf8(p, name_index) is Ok {
                lemma_utf8_extends(p, q, name_index);
            }
        },
        EntryModel::NameAndType { name_index, descriptor_index } => {
            if pool_utf8(p, name_index) is Ok {
                lemma_utf8_extends(p, q, name_index);
            }
            if pool_utf8(p, descriptor_index) is Ok {
                lemma_utf8_extends(p, q, descriptor_index);
            }
        },
        _ => {},
    }
}

/// A reference lookup that succeeds in `p` gives the same in every pool that extends `p`.
proof fn lemma_ref_extends(p: Seq<Option<EntryModel>>, q: Seq<Option<EntryModel>>, i: u16)
    requires
        extends(p, q),
        pool_get(p, i) is Ok,
    ensures
        pool_field_ref(p, i) is Ok ==> pool_field_ref(q, i) == pool_field_ref(p, i),
        pool_method_ref(p, i) is Ok ==> pool_method_ref(q, i) == pool_method_ref(p, i),
        pool_interface_method_ref(p, i) is Ok ==> pool_interface_method_ref(q, i) == pool_interface_method_ref(p, i),
        pool_method_or_interface_ref(p, i) is Ok ==> pool_method_or_interface_ref(q, i) == pool_method_or_interface_ref(p, i),
{
    lemma_get_extends(p, q, i);
    match pool_get(p, i).unwrap() {
        EntryModel::FieldRef { class_index, name_and_type_index } => {
            if pool_get(p, class_index) is Ok { lemma_named_extends(p, q, class_index); }
            if pool_get(p, name_and_type_index) is Ok { lemma_named_extends(p, q, name_and_type_index); }
        },
        EntryModel::MethodRef { class_index, name_and_type_index } => {
            if pool_get(p, class_index) is Ok { lemma_named_extends(p, q, class_index); }
            if pool_get(p, name_and_type_index) is Ok { lemma_named_extends(p, q, name_and_type_index); }
        },
        EntryModel::InterfaceMethodRef { class_index, name_and_type_index } => {
            if pool_get(p, class_index) is Ok { lemma_named_extends(p, q, class_index); }
            if pool_get(p, name_and_type_index) is Ok { lemma_named_extends(p, q, name_and_type_index); }
        },
        _ => {},
    }
}

/// What [`put_spec`] gives back, for a pool that is consistent.
proof fn lemma_step(es: Seq<EntryModel>, e: EntryModel)
    requires
        no_dup(es),
        pool_count(es) <= 0xFFFF,
    ensures
        no_dup(step(es, put_spec(es, e)).1),
        pool_count(step(es, put_spec(es, e)).1) <= 0xFFFF,
        extends(pool_slots(es), pool_slots(step(es, put_spec(es, e)).1)),
        step(es, put_spec(es, e)).0 matches Ok(i) ==> pool_get(pool_slots(step(es, put_spec(es, e)).1), i) == Ok::<EntryModel, Error>(e),
{
    lemma_put_get(es, e);
}

/// The slots of two sequences of entries, one after the other.
proof fn lemma_slots_concat(a: Seq<EntryModel>, b: Seq<EntryModel>)
    ensures
        slots(a + b) == slots(a) + slots(b),
    decreases a.len(),
{
    if a.len() == 0 {
        assert(a + b =~= b);
        assert(slots(a) + slots(b) =~= slots(b));
    } else {
        assert((a + b).skip(1) =~= a.skip(1) + b);
        lemma_slots_concat(a.skip(1), b);
        assert((a + b)[0] == a[0]);
        assert(slots(a + b) =~= entry_slots(a[0]) + (slots(a.skip(1)) + slots(b)));
    }
}

/// The slots of one entry.
proof fn lemma_slots_single(e: EntryModel)
    ensures
        slots(seq![e]) == entry_slots(e),
{
    assert(seq![e].skip(1) =~= Seq::<EntryModel>::empty());
    assert(slots(seq![e]) =~= entry_slots(e) + slots(Seq::<EntryModel>::empty()));
}

/// Where the entry at position `k` lies among the slots.
proof fn lemma_slot_of(es: Seq<EntryModel>, k: int)
    requires
        0 <= k < es.len(),
    ensures
        pool_slots(es)[slot_of(es, k)] == Some(es[k]),
        is_wide(es[k]) ==> pool_slots(es)[slot_of(es, k) + 1] == None::<EntryModel>,
        slot_of(es, k + 1) == slot_of(es, k) + width(es[k]),
        slot_of(es, k + 1) <= pool_count(es),
        1 <= slot_of(es, k),
{
    let a = es.take(k);
    let b = es.skip(k + 1);
    assert(es.take(k + 1) =~= a + seq![es[k]]);
    assert(es =~= a + seq![es[k]] + b);
    lemma_slots_concat(a, seq![es[k]]);
    lemma_slots_concat(a + seq![es[k]], b);
    lemma_slots_single(es[k]);
}

/// The index after the last entry is the pool count.
proof fn lemma_slot_of_end(es: Seq<EntryModel>)
    ensures
        slot_of(es, es.len() as int) == pool_count(es),
        slot_of(es, 0) == 1,
{
    assert(es.take(es.len() as int) =~= es);
    assert(es.take(0) =~= Seq::<EntryModel>::empty());
}

/// Adding an entry at the end adds its slots at the end.
proof fn lemma_slots_push(es: Seq<EntryModel>, e: EntryModel)
    ensures
        slots(es.push(e)) == slots(es) + entry_slots(e),
        pool_slots(es.push(e)) == pool_slots(es) + entry_slots(e),
{
    assert(es.push(e) =~= es + seq![e]);
    lemma_slots_concat(es, seq![e]);
    lemma_slots_single(e);
    assert(pool_slots(es.push(e)) =~= pool_slots(es) + entry_slots(e));
}

/// What [`put_spec`] gives back can be read from the new pool at the index it returns,
/// and the slots that were there stay as they were.
pub proof fn lemma_put_get(es: Seq<EntryModel>, e: EntryModel)
    requires
        no_dup(es),
        pool_count(es) <= 0xFFFF,
    ensures
        match put_spec(es, e) {
            Ok((i, es2)) => {
                &&& pool_get(pool_slots(es2), i) == Ok::<EntryModel, Error>(e)
                &&& no_dup(es2)
                &&& pool_count(es2) <= 0xFFFF
                &&& extends(pool_slots(es), pool_slots(es2))
            },
            Err(x) => x == Error::PoolOverflow && pool_count(es) + width(e) > 0xFFFF,
        },
{
    if es.contains(e) {
        let k = es.index_of(e);
        lemma_slot_of(es, k);
        lemma_slot_of_end(es);
    } else if pool_count(es) + width(e) <= 0xFFFF {
        lemma_slots_push(es, e);
        let es2 = es.push(e);
        assert(pool_slots(es2)[pool_count(es)] == Some(e));
        assert forall|i: int, j: int| 0 <= i < j < es2.len() implies es2[i] != es2[j] by {
            if j == es.len() {
                assert(es.contains(es[i]));
            }
        }
    }
}


/// Putting an entry a second time changes nothing and gives the same index:
/// the pool hands out one index per entry.
pub proof fn lemma_put_twice(es: Seq<EntryModel>, e: EntryModel)
    requires
        no_dup(es),
        put_spec(es, e) is Ok,
    ensures
        ({
            let (i, es2) = put_spec(es, e)->Ok_0;
            put_spec(es2, e) == Ok::<(u16, Seq<EntryModel>), Error>((i, es2))
        }),
{
    if !es.contains(e) {
        let es2 = es.push(e);
        let n = es.len() as int;
        assert(es2[n] == e);
        assert(es2.contains(e));
        let k = es2.index_of(e);
        if k != n {
            assert(es2[k] == e);
            assert(es.contains(e));
        }
        assert(es2.take(n) =~= es);
        lemma_slot_of_end(es);
    }
}

/// A new entry gets the next free index, and the entries before keep theirs.
pub proof fn lemma_put_new(es: Seq<EntryModel>, e: EntryModel)
    requires
        !es.contains(e),
        pool_count(es) + width(e) <= 0xFFFF,
    ensures
        put_spec(es, e) == Ok::<(u16, Seq<EntryModel>), Error>((pool_count(es) as u16, es.push(e))),
        pool_count(es.push(e)) == pool_count(es) + width(e),
{
    lemma_slots_push(es, e);
    lemma_slots_single(e);
}

/// Whether two entries are equal, strings compared by code points.
fn same_entry(a: &PoolEntry, b: &PoolEntry) -> (r: bool)
    ensures
        r == (a@ == b@),
{
    match (a, b) {
        (PoolEntry::Class { name_index: x }, PoolEntry::Class { name_index: y }) => *x == *y,
        (PoolEntry::FieldRef { class_index: x1, name_and_type_index: x2 },
            PoolEntry::FieldRef { class_index: y1, name_and_type_index: y2 }) => *x1 == *y1 && *x2 == *y2,
        (PoolEntry::MethodRef { class_index: x1, name_and_type_index: x2 },
            PoolEntry::MethodRef { class_index: y1, name_and_type_index: y2 }) => *x1 == *y1 && *x2 == *y2,
        (PoolEntry::InterfaceMethodRef { class_index: x1, name_and_type_index: x2 },
            PoolEntry::InterfaceMethodRef { class_index: y1, name_and_type_index: y2 }) => *x1 == *y1 && *x2 == *y2,
        (PoolEntry::String { string_index: x }, PoolEntry::String { string_index: y }) => *x == *y,
        (PoolEntry::Integer { bytes: x }, PoolEntry::Integer { bytes: y }) => *x == *y,
        (PoolEntry::Float { bytes: x }, PoolEntry::Float { bytes: y }) => *x == *y,
        (PoolEntry::Long { bytes: x }, PoolEntry::Long { bytes: y }) => *x == *y,
        (PoolEntry::Double { bytes: x }, PoolEntry::Double { bytes: y }) => *x == *y,
        (PoolEntry::NameAndType { name_index: x1, descriptor_index: x2 },
            PoolEntry::NameAndType { name_index: y1, descriptor_index: y2 }) => *x1 == *y1 && *x2 == *y2,
        (PoolEntry::Utf8 { string: x }, PoolEntry::Utf8 { string: y }) => x.equals(y),
        (PoolEntry::MethodHandle { reference_kind: x1, reference_index: x2 },
            PoolEntry::MethodHandle { reference_kind: y1, reference_index: y2 }) => *x1 == *y1 && *x2 == *y2,
        (PoolEntry::MethodType { descriptor_index: x }, PoolEntry::MethodType { descriptor_index: y }) => *x == *y,
        (PoolEntry::Dynamic { bootstrap_method_attribute_index: x1, name_and_type_index: x2 },
            PoolEntry::Dynamic { bootstrap_method_attribute_index: y1, name_and_type_index: y2 }) => *x1 == *y1 && *x2 == *y2,
        (PoolEntry::InvokeDynamic { bootstrap_method_attribute_index: x1, name_and_type_index: x2 },
            PoolEntry::InvokeDynamic { bootstrap_method_attribute_index: y1, name_and_type_index: y2 }) => *x1 == *y1 && *x2 == *y2,
        (PoolEntry::Module { name_index: x }, PoolEntry::Module { name_index: y }) => *x == *y,
        (PoolEntry::Package { name_index: x }, PoolEntry::Package { name_index: y }) => *x == *y,
        _ => false,
    }
}

/// Whether an entry takes two pool slots.
fn entry_is_wide(e: &PoolEntry) -> (r: bool)
    ensures
        r == is_wide(e@),
{
    match e {
        PoolEntry::Long { .. } | PoolEntry::Double { .. } => true,
        _ => false,
    }
}

/// The constant pool of a class file being written.
#[derive(Debug)]
pub struct PoolWrite {
    /// The value written as `constant_pool_count` in the class file.
    ///
    /// It starts at `1` and goes up by two for `Double` and `Long` entries.
    count: u16,
    /// All pool entries, in the order they were added, each one once.
    inner: Vec<PoolEntry>,
}

impl View for PoolWrite {
    type V = Seq<EntryModel>;

    closed spec fn view(&self) -> Seq<EntryModel> {
        self.inner@.map_values(|e: PoolEntry| e@)
    }
}

impl PoolWrite {
    /// The pool is consistent: the count matches the entries, which fit into
    /// 65535 slots, and no entry occurs twice.
    pub closed spec fn wf(&self) -> bool {
        &&& self.count as int == pool_count(self@)
        &&& no_dup(self@)
    }

    /// The value that will be written as `constant_pool_count`.
    pub closed spec fn count(&self) -> u16 {
        self.count
    }

    /// Creates an empty pool. The first index given out is `1`.
    pub fn new() -> (r: PoolWrite)
        ensures
            r.wf(),
            r@ == Seq::<EntryModel>::empty(),
    {
        let r = PoolWrite { count: 1, inner: Vec::new() };
        assert(r@ =~= Seq::<EntryModel>::empty());
        r
    }

    /// The value that will be written as `constant_pool_count`.
    pub fn constant_pool_count(&self) -> (r: u16)
        requires
            self.wf(),
        ensures
            r == pool_count(self@),
    {
        self.count
    }

    /// Adds `entry` if it is not there yet, and returns its index.
    fn put(&mut self, entry: PoolEntry) -> (r: Result<u16, Error>)
        requires
            old(self).wf(),
        ensures
            final(self).wf(),
            match put_spec(old(self)@, entry@) {
                Ok((i, es)) => r == Ok::<u16, Error>(i) && final(self)@ == es,
                Err(x) => r == Err::<u16, Error>(x) && final(self)@ == old(self)@,
            },
    {
        let ghost es = self@;
        proof {
            lemma_slot_of_end(es);
        }
        let mut k: usize = 0;
        let mut index: u16 = 1;
        while k < self.inner.len()
            invariant
                self@ == es,
                self.wf(),
                k <= self.inner@.len(),
                self.inner@.len() == es.len(),
                index as int == slot_of(es, k as int),
                forall|j: int| 0 <= j < k ==> es[j] != entry@,
            decreases self.inner@.len() - k,
        {
            assert(es[k as int] == self.inner@[k as int]@);
            proof {
                lemma_slot_of(es, k as int);
            }
            if same_entry(&self.inner[k], &entry) {
                proof {
                    assert(es.contains(entry@));
                    let m = es.index_of(entry@);
                    assert(m == k) by {
                        if m < k {
                        } else if m > k {
                            assert(es[k as int] != es[m]);
                        }
                    }
                }
                return Ok(index);
            }
            let w: u16 = if entry_is_wide(&self.inner[k]) { 2 } else { 1 };
            index = index + w;
            k = k + 1;
        }
        let inc: u16 = if entry_is_wide(&entry) { 2 } else { 1 };
        match self.count.checked_add(inc) {
            Some(count) => {
                let index = self.count;
                let ghost e = entry@;
                self.count = count;
                self.inner.push(entry);
                proof {
                    assert(self@ =~= es.push(e));
                    lemma_put_get(es, e);
                    lemma_slots_push(es, e);
                }
                Ok(index)
            },
            None => Err(Error::PoolOverflow),
        }
    }
}


impl PoolWrite {
    /// Adds a `Utf8` entry for `value`, unless there is one, and returns its index.
    pub fn put_utf8(&mut self, value: &JavaString) -> (r: Result<u16, Error>)
        requires
            old(self).wf(),
        ensures
            final(self).wf(),
            (r, final(self)@) == put_utf8_spec(old(self)@, value@),
            extends(pool_slots(old(self)@), pool_slots(final(self)@)),
            r matches Ok(i) ==> pool_utf8(pool_slots(final(self)@), i) == Ok::<Seq<u32>, Error>(value@),
    {
        proof {
            lemma_step(self@, EntryModel::Utf8 { string: value@ });
        }
        self.put(PoolEntry::Utf8 { string: value.duplicate() })
    }

    /// Adds a `Class` entry for the class named `name`.
    fn put_class_name(&mut self, name: &JavaString) -> (r: Result<u16, Error>)
        requires
            old(self).wf(),
        ensures
            final(self).wf(),
            (r, final(self)@) == put_class_spec(old(self)@, name@),
            extends(pool_slots(old(self)@), pool_slots(final(self)@)),
            r matches Ok(i) ==> pool_class(pool_slots(final(self)@), i) == Ok::<Seq<u32>, Error>(name@),
    {
        let ghost es = self@;
        let name_index = self.put_utf8(name)?;
        let ghost es1 = self@;
        proof {
            lemma_step(es1, EntryModel::Class { name_index });
        }
        let r = self.put(PoolEntry::Class { name_index });
        proof {
            lemma_extends_trans(pool_slots(es), pool_slots(es1), pool_slots(self@));
            lemma_utf8_extends(pool_slots(es1), pool_slots(self@), name_index);
        }
        r
    }

    /// Adds a `Class` entry for `value` and the `Utf8` entry of its name.
    pub fn put_class(&mut self, value: &ClassName) -> (r: Result<u16, Error>)
        requires
            old(self).wf(),
        ensures
            final(self).wf(),
            (r, final(self)@) == put_class_spec(old(self)@, value@),
            extends(pool_slots(old(self)@), pool_slots(final(self)@)),
            r matches Ok(i) ==> pool_class(pool_slots(final(self)@), i) == Ok::<Seq<u32>, Error>(value@),
    {
        self.put_class_name(value.as_inner())
    }

    /// Adds a `Package` entry for `value` and the `Utf8` entry of its name.
    pub fn put_package(&mut self, value: &PackageName) -> (r: Result<u16, Error>)
        requires
            old(self).wf(),
        ensures
            final(self).wf(),
            (r, final(self)@) == put_package_spec(old(self)@, value@),
            extends(pool_slots(old(self)@), pool_slots(final(self)@)),
            r matches Ok(i) ==> pool_package(pool_slots(final(self)@), i) == Ok::<Seq<u32>, Error>(value@),
    {
        let ghost es = self@;
        let name_index = self.put_utf8(value.as_inner())?;
        let ghost es1 = self@;
        proof {
            lemma_step(es1, EntryModel::Package { name_index });
        }
        let r = self.put(PoolEntry::Package { name_index });
        proof {
            lemma_extends_trans(pool_slots(es), pool_slots(es1), pool_slots(self@));
            lemma_utf8_extends(pool_slots(es1), pool_slots(self@), name_index);
        }
        r
    }

    /// Adds a `Module` entry for `value` and the `Utf8` entry of its name.
    pub fn put_module(&mut self, value: &ModuleName) -> (r: Result<u16, Error>)
        requires
            old(self).wf(),
        ensures
            final(self).wf(),
            (r, final(self)@) == put_module_spec(old(self)@, value@),
            extends(pool_slots(old(self)@), pool_slots(final(self)@)),
            r matches Ok(i) ==> pool_module(pool_slots(final(self)@), i) == Ok::<Seq<u32>, Error>(value@),
    {
        let ghost es = self@;
        let name_index = self.put_utf8(value.as_inner())?;
        let ghost es1 = self@;
        proof {
            lemma_step(es1, EntryModel::Module { name_index });
        }
        let r = self.put(PoolEntry::Module { name_index });
        proof {
            lemma_extends_trans(pool_slots(es), pool_slots(es1), pool_slots(self@));
            lemma_utf8_extends(pool_slots(es1), pool_slots(self@), name_index);
        }
        r
    }

    /// Adds a `NameAndType` entry and the `Utf8` entries of the name and the descriptor.
    pub fn put_name_and_type(&mut self, name: &JavaString, desc: &JavaString) -> (r: Result<u16, Error>)
        requires
            old(self).wf(),
        ensures
            final(self).wf(),
            (r, final(self)@) == put_name_and_type_spec(old(self)@, name@, desc@),
            extends(pool_slots(old(self)@), pool_slots(final(self)@)),
            r matches Ok(i) ==> pool_name_and_type(pool_slots(final(self)@), i) == Ok::<(Seq<u32>, Seq<u32>), Error>((name@, desc@)),
    {
        let ghost es = self@;
        let name_index = self.put_utf8(name)?;
        let ghost es1 = self@;
        let descriptor_index = self.put_utf8(desc)?;
        let ghost es2 = self@;
        proof {
            lemma_extends_trans(pool_slots(es), pool_slots(es1), pool_slots(es2));
            lemma_utf8_extends(pool_slots(es1), pool_slots(es2), name_index);
            lemma_step(es2, EntryModel::NameAndType { name_index, descriptor_index });
        }
        let r = self.put(PoolEntry::NameAndType { name_index, descriptor_index });
        proof {
            lemma_extends_trans(pool_slots(es), pool_slots(es2), pool_slots(self@));
            lemma_utf8_extends(pool_slots(es2), pool_slots(self@), name_index);
            lemma_utf8_extends(pool_slots(es2), pool_slots(self@), descriptor_index);
        }
        r
    }

    /// Adds a reference entry with tag `tag`, with its class and its name and type.
    fn put_ref(&mut self, class: &JavaString, name: &JavaString, desc: &JavaString, tag: u8) -> (r: Result<u16, Error>)
        requires
            old(self).wf(),
            tag == FIELD_REF || tag == METHOD_REF || tag == INTERFACE_METHOD_REF,
        ensures
            final(self).wf(),
            (r, final(self)@) == put_ref_spec(old(self)@, RefModel { class: class@, name: name@, desc: desc@ }, tag),
            extends(pool_slots(old(self)@), pool_slots(final(self)@)),
            r matches Ok(i) ==> {
                let m = RefModel { class: class@, name: name@, desc: desc@ };
                let p = pool_slots(final(self)@);
                &&& tag == FIELD_REF ==> pool_field_ref(p, i) == Ok::<RefModel, Error>(m)
                &&& tag == METHOD_REF ==> pool_method_ref(p, i) == Ok::<RefModel, Error>(m)
                &&& tag == INTERFACE_METHOD_REF ==> pool_interface_method_ref(p, i) == Ok::<RefModel, Error>(m)
                &&& tag != FIELD_REF ==> pool_method_or_interface_ref(p, i)
                    == Ok::<(RefModel, bool), Error>((m, tag == INTERFACE_METHOD_REF))
            },
    {
        let ghost es = self@;
        let class_index = self.put_class_name(class)?;
        let ghost es1 = self@;
        let name_and_type_index = self.put_name_and_type(name, desc)?;
        let ghost es2 = self@;
        let entry = if tag == FIELD_REF {
            PoolEntry::FieldRef { class_index, name_and_type_index }
        } else if tag == METHOD_REF {
            PoolEntry::MethodRef { class_index, name_and_type_index }
        } else {
            PoolEntry::InterfaceMethodRef { class_index, name_and_type_index }
        };
        proof {
            lemma_extends_trans(pool_slots(es), pool_slots(es1), pool_slots(es2));
            lemma_named_extends(pool_slots(es1), pool_slots(es2), class_index);
            lemma_step(es2, entry@);
        }
        let r = self.put(entry);
        proof {
            lemma_extends_trans(pool_slots(es), pool_slots(es2), pool_slots(self@));
            lemma_named_extends(pool_slots(es2), pool_slots(self@), class_index);
            lemma_named_extends(pool_slots(es2), pool_slots(self@), name_and_type_index);
        }
        r
    }

    /// Adds a `FieldRef` entry for `value`, with its class and its name and type.
    pub fn put_field_ref(&mut self, value: &FieldRef) -> (r: Result<u16, Error>)
        requires
            old(self).wf(),
        ensures
            final(self).wf(),
            (r, final(self)@) == put_ref_spec(old(self)@, value@, FIELD_REF),
            extends(pool_slots(old(self)@), pool_slots(final(self)@)),
            r matches Ok(i) ==> pool_field_ref(pool_slots(final(self)@), i) == Ok::<RefModel, Error>(value@),
    {
        self.put_ref(value.class.as_inner(), value.name.as_inner(), value.desc.as_inner(), FIELD_REF)
    }

    /// Adds a `MethodRef` entry for `value`, with its class and its name and type.
    pub fn put_method_ref(&mut self, value: &MethodRef) -> (r: Result<u16, Error>)
        requires
            old(self).wf(),
        ensures
            final(self).wf(),
            (r, final(self)@) == put_ref_spec(old(self)@, value@, METHOD_REF),
            extends(pool_slots(old(self)@), pool_slots(final(self)@)),
            r matches Ok(i) ==> pool_method_ref(pool_slots(final(self)@), i) == Ok::<RefModel, Error>(value@),
    {
        self.put_ref(value.class.as_inner(), value.name.as_inner(), value.desc.as_inner(), METHOD_REF)
    }

    /// Adds an `InterfaceMethodRef` entry for `value`, with its class and its name and type.
    pub fn put_interface_method_ref(&mut self, value: &MethodRef) -> (r: Result<u16, Error>)
        requires
            old(self).wf(),
        ensures
            final(self).wf(),
            (r, final(self)@) == put_ref_spec(old(self)@, value@, INTERFACE_METHOD_REF),
            extends(pool_slots(old(self)@), pool_slots(final(self)@)),
            r matches Ok(i) ==> pool_interface_method_ref(pool_slots(final(self)@), i) == Ok::<RefModel, Error>(value@),
    {
        self.put_ref(value.class.as_inner(), value.name.as_inner(), value.desc.as_inner(), INTERFACE_METHOD_REF)
    }

    /// Adds an `InterfaceMethodRef` entry if the `bool` is `true`, else a `MethodRef` entry.
    pub fn put_method_ref_or_interface_method_ref(&mut self, value: (&MethodRef, bool)) -> (r: Result<u16, Error>)
        requires
            old(self).wf(),
        ensures
            final(self).wf(),
            (r, final(self)@) == put_ref_spec(old(self)@, value.0@, method_tag(value.1)),
            extends(pool_slots(old(self)@), pool_slots(final(self)@)),
            r matches Ok(i) ==> pool_method_or_interface_ref(pool_slots(final(self)@), i)
                == Ok::<(RefModel, bool), Error>((value.0@, value.1)),
    {
        let (method, is_interface) = value;
        let tag = if is_interface { INTERFACE_METHOD_REF } else { METHOD_REF };
        self.put_ref(method.class.as_inner(), method.name.as_inner(), method.desc.as_inner(), tag)
    }

    /// Adds an `Integer` entry.
    pub fn put_integer(&mut self, value: i32) -> (r: Result<u16, Error>)
        requires
            old(self).wf(),
        ensures
            final(self).wf(),
            (r, final(self)@) == step(old(self)@, put_spec(old(self)@, EntryModel::Integer { bytes: value })),
            extends(pool_slots(old(self)@), pool_slots(final(self)@)),
            r matches Ok(i) ==> pool_integer(pool_slots(final(self)@), i) == Ok::<i32, Error>(value),
    {
        proof {
            lemma_step(self@, EntryModel::Integer { bytes: value });
        }
        self.put(PoolEntry::Integer { bytes: value })
    }

    /// Adds an `Integer` entry holding the byte `value`.
    pub fn put_byte_as_integer(&mut self, value: i8) -> (r: Result<u16, Error>)
        requires
            old(self).wf(),
        ensures
            final(self).wf(),
            (r, final(self)@) == step(old(self)@, put_spec(old(self)@, EntryModel::Integer { bytes: value as i32 })),
            extends(pool_slots(old(self)@), pool_slots(final(self)@)),
            r matches Ok(i) ==> pool_integer(pool_slots(final(self)@), i) == Ok::<i32, Error>(value as i32),
    {
        self.put_integer(value as i32)
    }

    /// Adds an `Integer` entry holding the character `value`.
    pub fn put_char_as_integer(&mut self, value: u16) -> (r: Result<u16, Error>)
        requires
            old(self).wf(),
        ensures
            final(self).wf(),
            (r, final(self)@) == step(old(self)@, put_spec(old(self)@, EntryModel::Integer { bytes: value as i32 })),
            extends(pool_slots(old(self)@), pool_slots(final(self)@)),
            r matches Ok(i) ==> pool_integer(pool_slots(final(self)@), i) == Ok::<i32, Error>(value as i32),
    {
        self.put_integer(value as i32)
    }

    /// Adds an `Integer` entry holding the short `value`.
    pub fn put_short_as_integer(&mut self, value: i16) -> (r: Result<u16, Error>)
        requires
            old(self).wf(),
        ensures
            final(self).wf(),
            (r, final(self)@) == step(old(self)@, put_spec(old(self)@, EntryModel::Integer { bytes: value as i32 })),
            extends(pool_slots(old(self)@), pool_slots(final(self)@)),
            r matches Ok(i) ==> pool_integer(pool_slots(final(self)@), i) == Ok::<i32, Error>(value as i32),
    {
        self.put_integer(value as i32)
    }

    /// Adds an `Integer` entry holding `1` for `true` and `0` for `false`.
    pub fn put_boolean_as_integer(&mut self, value: bool) -> (r: Result<u16, Error>)
        requires
            old(self).wf(),
        ensures
            final(self).wf(),
            (r, final(self)@) == step(old(self)@, put_spec(old(self)@, EntryModel::Integer { bytes: if value { 1 } else { 0 } })),
            extends(pool_slots(old(self)@), pool_slots(final(self)@)),
            r matches Ok(i) ==> pool_integer(pool_slots(final(self)@), i) == Ok::<i32, Error>(if value { 1 } else { 0 }),
    {
        let v: i32 = if value { 1 } else { 0 };
        self.put_integer(v)
    }

    /// Adds a `Long` entry, which takes two pool slots.
    pub fn put_long(&mut self, value: i64) -> (r: Result<u16, Error>)
        requires
            old(self).wf(),
        ensures
            final(self).wf(),
            (r, final(self)@) == step(old(self)@, put_spec(old(self)@, EntryModel::Long { bytes: value })),
            extends(pool_slots(old(self)@), pool_slots(final(self)@)),
            r matches Ok(i) ==> pool_long(pool_slots(final(self)@), i) == Ok::<i64, Error>(value),
    {
        proof {
            lemma_step(self@, EntryModel::Long { bytes: value });
        }
        self.put(PoolEntry::Long { bytes: value })
    }

    /// Adds a `Float` entry holding the IEEE 754 bits `bits`.
    pub fn put_float(&mut self, bits: u32) -> (r: Result<u16, Error>)
        requires
            old(self).wf(),
        ensures
            final(self).wf(),
            (r, final(self)@) == step(old(self)@, put_spec(old(self)@, EntryModel::Float { bytes: bits })),
            extends(pool_slots(old(self)@), pool_slots(final(self)@)),
            r matches Ok(i) ==> pool_constant(pool_slots(final(self)@), i) == Ok::<ConstantModel, Error>(ConstantModel::Float(bits)),
    {
        proof {
            lemma_step(self@, EntryModel::Float { bytes: bits });
        }
        self.put(PoolEntry::Float { bytes: bits })
    }

    /// Adds a `Double` entry holding the IEEE 754 bits `bits`, which takes two pool slots.
    pub fn put_double(&mut self, bits: u64) -> (r: Result<u16, Error>)
        requires
            old(self).wf(),
        ensures
            final(self).wf(),
            (r, final(self)@) == step(old(self)@, put_spec(old(self)@, EntryModel::Double { bytes: bits })),
            extends(pool_slots(old(self)@), pool_slots(final(self)@)),
            r matches Ok(i) ==> pool_constant(pool_slots(final(self)@), i) == Ok::<ConstantModel, Error>(ConstantModel::Double(bits)),
    {
        proof {
            lemma_step(self@, EntryModel::Double { bytes: bits });
        }
        self.put(PoolEntry::Double { bytes: bits })
    }

    /// Adds a `String` entry for `value` and the `Utf8` entry of its contents.
    pub fn put_string(&mut self, value: &JavaString) -> (r: Result<u16, Error>)
        requires
            old(self).wf(),
        ensures
            final(self).wf(),
            (r, final(self)@) == put_string_spec(old(self)@, value@),
            extends(pool_slots(old(self)@), pool_slots(final(self)@)),
            r matches Ok(i) ==> pool_constant(pool_slots(final(self)@), i) == Ok::<ConstantModel, Error>(ConstantModel::String(value@)),
    {
        let ghost es = self@;
        let string_index = self.put_utf8(value)?;
        let ghost es1 = self@;
        proof {
            lemma_step(es1, EntryModel::String { string_index });
        }
        let r = self.put(PoolEntry::String { string_index });
        proof {
            lemma_extends_trans(pool_slots(es), pool_slots(es1), pool_slots(self@));
            lemma_utf8_extends(pool_slots(es1), pool_slots(self@), string_index);
        }
        r
    }

    /// Adds the entry of the value of a `ConstantValue` attribute.
    pub fn put_constant_value(&mut self, value: &ConstantValue) -> (r: Result<u16, Error>)
        requires
            old(self).wf(),
        ensures
            final(self).wf(),
            (r, final(self)@) == put_constant_spec(old(self)@, value@),
            extends(pool_slots(old(self)@), pool_slots(final(self)@)),
            r matches Ok(i) ==> pool_constant(pool_slots(final(self)@), i) == Ok::<ConstantModel, Error>(value@),
    {
        match value {
            ConstantValue::Integer(v) => {
                let r = self.put_integer(*v);
                proof {
                    if let Ok(i) = r {
                        assert(pool_get(pool_slots(self@), i) == Ok::<EntryModel, Error>(EntryModel::Integer { bytes: *v })) by {
                            lemma_put_get(old(self)@, EntryModel::Integer { bytes: *v });
                        }
                    }
                }
                r
            },
            ConstantValue::Float(v) => self.put_float(*v),
            ConstantValue::Long(v) => {
                let r = self.put_long(*v);
                proof {
                    if let Ok(i) = r {
                        assert(pool_get(pool_slots(self@), i) == Ok::<EntryModel, Error>(EntryModel::Long { bytes: *v })) by {
                            lemma_put_get(old(self)@, EntryModel::Long { bytes: *v });
                        }
                    }
                }
                r
            },
            ConstantValue::Double(v) => self.put_double(*v),
            ConstantValue::String(s) => self.put_string(s),
        }
    }

    /// Adds a `MethodHandle` entry for `value` and the entries it refers to.
    #[verifier::spinoff_prover]
    #[verifier::rlimit(40)]
    pub fn put_method_handle(&mut self, value: &Handle) -> (r: Result<u16, Error>)
        requires
            old(self).wf(),
        ensures
            final(self).wf(),
            (r, final(self)@) == put_method_handle_spec(old(self)@, value@),
            extends(pool_slots(old(self)@), pool_slots(final(self)@)),
            r matches Ok(i) ==> pool_method_handle(pool_slots(final(self)@), i) == Ok::<HandleModel, Error>(value@),
    {
        let ghost es = self@;
        let (reference_kind, reference_index): (u8, u16) = match value {
            Handle::GetField(field) => (1, self.put_field_ref(field)?),
            Handle::GetStatic(field) => (2, self.put_field_ref(field)?),
            Handle::PutField(field) => (3, self.put_field_ref(field)?),
            Handle::PutStatic(field) => (4, self.put_field_ref(field)?),
            Handle::InvokeVirtual(method) => (5, self.put_method_ref(method)?),
            Handle::InvokeStatic(method, interface) => (6, self.put_method_ref_or_interface_method_ref((method, *interface))?),
            Handle::InvokeSpecial(method, interface) => (7, self.put_method_ref_or_interface_method_ref((method, *interface))?),
            Handle::NewInvokeSpecial(method) => (8, self.put_method_ref(method)?),
            Handle::InvokeInterface(method) => (9, self.put_interface_method_ref(method)?),
        };
        let ghost es1 = self@;
        let entry = PoolEntry::MethodHandle { reference_kind, reference_index };
        proof {
            lemma_step(es1, entry@);
        }
        let r = self.put(entry);
        proof {
            lemma_extends_trans(pool_slots(es), pool_slots(es1), pool_slots(self@));
            lemma_ref_extends(pool_slots(es1), pool_slots(self@), reference_index);
        }
        r
    }
}


// ----- writing the pool -----

/// The bytes of one entry as written: its tag, then its fields.
pub open spec fn entry_bytes(e: EntryModel) -> Seq<u8> {
    match e {
        EntryModel::Utf8 { string } => seq![UTF8] + u16_bytes(encode(string).len() as u16) + encode(string),
        EntryModel::Integer { bytes } => seq![INTEGER] + u32_bytes(bytes as u32),
        EntryModel::Float { bytes } => seq![FLOAT] + u32_bytes(bytes),
        EntryModel::Long { bytes } => seq![LONG] + u64_bytes(bytes as u64),
        EntryModel::Double { bytes } => seq![DOUBLE] + u64_bytes(bytes),
        EntryModel::Class { name_index } => seq![CLASS] + u16_bytes(name_index),
        EntryModel::String { string_index } => seq![STRING] + u16_bytes(string_index),
        EntryModel::FieldRef { class_index, name_and_type_index } =>
            seq![FIELD_REF] + u16_bytes(class_index) + u16_bytes(name_and_type_index),
        EntryModel::MethodRef { class_index, name_and_type_index } =>
            seq![METHOD_REF] + u16_bytes(class_index) + u16_bytes(name_and_type_index),
        EntryModel::InterfaceMethodRef { class_index, name_and_type_index } =>
            seq![INTERFACE_METHOD_REF] + u16_bytes(class_index) + u16_bytes(name_and_type_index),
        EntryModel::NameAndType { name_index, descriptor_index } =>
            seq![NAME_AND_TYPE] + u16_bytes(name_index) + u16_bytes(descriptor_index),
        EntryModel::MethodHandle { reference_kind, reference_index } =>
            seq![METHOD_HANDLE, reference_kind] + u16_bytes(reference_index),
        EntryModel::MethodType { descriptor_index } => seq![METHOD_TYPE] + u16_bytes(descriptor_index),
        EntryModel::Dynamic { bootstrap_method_attribute_index, name_and_type_index } =>
            seq![DYNAMIC] + u16_bytes(bootstrap_method_attribute_index) + u16_bytes(name_and_type_index),
        EntryModel::InvokeDynamic { bootstrap_method_attribute_index, name_and_type_index } =>
            seq![INVOKE_DYNAMIC] + u16_bytes(bootstrap_method_attribute_index) + u16_bytes(name_and_type_index),
        EntryModel::Module { name_index } => seq![MODULE] + u16_bytes(name_index),
        EntryModel::Package { name_index } => seq![PACKAGE] + u16_bytes(name_index),
    }
}

/// An entry can be written: a string's encoding must fit a 16-bit length.
pub open spec fn writable(e: EntryModel) -> bool {
    e matches EntryModel::Utf8 { string } ==> encode(string).len() <= 0xFFFF
}

/// The bytes of entries written one after the other.
pub open spec fn entries_bytes(es: Seq<EntryModel>) -> Seq<u8>
    decreases es.len(),
{
    if es.len() == 0 {
        Seq::empty()
    } else {
        entry_bytes(es[0]) + entries_bytes(es.skip(1))
    }
}

/// Every entry can be written.
pub open spec fn all_writable(es: Seq<EntryModel>) -> bool {
    forall|k: int| 0 <= k < es.len() ==> #[trigger] writable(es[k])
}

/// The position of the first entry that cannot be written.
pub open spec fn first_unwritable(es: Seq<EntryModel>) -> int {
    choose|k: int| 0 <= k < es.len() && !writable(es[k]) && forall|j: int| 0 <= j < k ==> #[trigger] writable(es[j])
}

/// The bytes of a written pool: the count, then the entries.
pub open spec fn pool_bytes(es: Seq<EntryModel>) -> Seq<u8> {
    u16_bytes(pool_count(es) as u16) + entries_bytes(es)
}

/// Every string of the entries is read back as it was written.
pub open spec fn strings_round_trip(es: Seq<EntryModel>) -> bool {
    forall|k: int| 0 <= k < es.len() ==> (#[trigger] es[k] matches EntryModel::Utf8 { string }
        ==> well_formed_code_points(string))
}

/// The bytes of two sequences of entries, one after the other.
proof fn lemma_entries_bytes_concat(a: Seq<EntryModel>, b: Seq<EntryModel>)
    ensures
        entries_bytes(a + b) == entries_bytes(a) + entries_bytes(b),
    decreases a.len(),
{
    if a.len() == 0 {
        assert(a + b =~= b);
        assert(entries_bytes(a) + entries_bytes(b) =~= entries_bytes(b));
    } else {
        assert((a + b).skip(1) =~= a.skip(1) + b);
        lemma_entries_bytes_concat(a.skip(1), b);
        assert((a + b)[0] == a[0]);
        assert(entries_bytes(a + b) =~= entry_bytes(a[0]) + (entries_bytes(a.skip(1)) + entries_bytes(b)));
    }
}

/// The bytes of the first `k + 1` entries.
proof fn lemma_entries_bytes_take(es: Seq<EntryModel>, k: int)
    requires
        0 <= k < es.len(),
    ensures
        entries_bytes(es.take(k + 1)) == entries_bytes(es.take(k)) + entry_bytes(es[k]),
{
    assert(es.take(k + 1) =~= es.take(k) + seq![es[k]]);
    lemma_entries_bytes_concat(es.take(k), seq![es[k]]);
    let one = seq![es[k]];
    assert(one.skip(1) =~= Seq::<EntryModel>::empty());
    assert(entries_bytes(one) == entry_bytes(one[0]) + entries_bytes(one.skip(1)));
    assert(entries_bytes(one) =~= entry_bytes(es[k]));
}

/// Reading a big-endian 16-bit value where its bytes were written.
pub proof fn lemma_be_u16_at(b: Seq<u8>, p: int, v: u16)
    requires
        0 <= p,
        p + 2 <= b.len(),
        b[p] == u16_bytes(v)[0],
        b[p + 1] == u16_bytes(v)[1],
    ensures
        be_u16(b, p) == v,
{
    lemma_u16_round_trip(v);
}

/// Reading a big-endian 32-bit value where its bytes were written.
pub proof fn lemma_be_u32_at(b: Seq<u8>, p: int, v: u32)
    requires
        0 <= p,
        p + 4 <= b.len(),
        forall|j: int| 0 <= j < 4 ==> b[p + j] == #[trigger] u32_bytes(v)[j],
    ensures
        be_u32(b, p) == v,
{
    lemma_u32_round_trip(v);
    assert(b[p] == u32_bytes(v)[0]);
    assert(b[p + 1] == u32_bytes(v)[1]);
    assert(b[p + 2] == u32_bytes(v)[2]);
    assert(b[p + 3] == u32_bytes(v)[3]);
}

/// Reading a big-endian 64-bit value where its bytes were written.
proof fn lemma_be_u64_at(b: Seq<u8>, p: int, v: u64)
    requires
        0 <= p,
        p + 8 <= b.len(),
        forall|j: int| 0 <= j < 8 ==> b[p + j] == #[trigger] u64_bytes(v)[j],
    ensures
        be_u64(b, p) == v,
{
    lemma_u64_round_trip(v);
    let hi = (v / 0x1_0000_0000) as u32;
    let lo = (v % 0x1_0000_0000) as u32;
    assert forall|j: int| 0 <= j < 4 implies b[p + j] == #[trigger] u32_bytes(hi)[j] by {
        assert(u64_bytes(v)[j] == u32_bytes(hi)[j]);
    }
    assert forall|j: int| 0 <= j < 4 implies b[p + 4 + j] == #[trigger] u32_bytes(lo)[j] by {
        assert(u64_bytes(v)[4 + j] == u32_bytes(lo)[j]);
        assert(b[p + (4 + j)] == u64_bytes(v)[4 + j]);
    }
    lemma_be_u32_at(b, p, hi);
    lemma_be_u32_at(b, p + 4, lo);
    assert(be_u64(u64_bytes(v), 0) == v);
    assert(be_u32(u64_bytes(v), 0) == hi) by {
        lemma_be_u32_at(u64_bytes(v), 0, hi);
    }
    assert(be_u32(u64_bytes(v), 4) == lo) by {
        assert forall|j: int| 0 <= j < 4 implies u64_bytes(v)[4 + j] == #[trigger] u32_bytes(lo)[j] by {}
        lemma_be_u32_at(u64_bytes(v), 4, lo);
    }
}

/// The bytes found at `pos` are those of `eb`.
proof fn lemma_bytes_at(b: Seq<u8>, pos: int, eb: Seq<u8>)
    requires
        0 <= pos,
        pos + eb.len() <= b.len(),
        b.subrange(pos, pos + eb.len()) == eb,
    ensures
        forall|j: int| 0 <= j < eb.len() ==> b[pos + j] == #[trigger] eb[j],
{
    assert forall|j: int| 0 <= j < eb.len() implies b[pos + j] == #[trigger] eb[j] by {
        assert(b.subrange(pos, pos + eb.len())[j] == b[pos + j]);
    }
}

/// The requirements for parsing back the entry written at `pos`.
pub open spec fn written_at(b: Seq<u8>, pos: int, e: EntryModel) -> bool {
    &&& 0 <= pos
    &&& pos + entry_bytes(e).len() <= b.len()
    &&& b.subrange(pos, pos + entry_bytes(e).len()) == entry_bytes(e)
    &&& writable(e)
    &&& e matches EntryModel::Utf8 { string } ==> well_formed_code_points(string)
}

/// A written `Utf8` entry is parsed back.
proof fn lemma_parse_utf8(b: Seq<u8>, pos: int, e: EntryModel)
    requires
        written_at(b, pos, e),
        e is Utf8,
    ensures
        parse_entry(b, pos) == Ok::<(EntryModel, int), Error>((e, entry_bytes(e).len() as int)),
{
    reveal(parse_entry);
    let eb = entry_bytes(e);
    lemma_bytes_at(b, pos, eb);
    let string = e->string;
    let enc = encode(string);
    let n = enc.len() as u16;
    assert(b[pos] == eb[0]);
    assert(eb[1] == u16_bytes(n)[0] && eb[2] == u16_bytes(n)[1]);
    assert(b[pos + 1] == eb[1] && b[pos + 2] == eb[2]);
    lemma_be_u16_at(b, pos + 1, n);
    assert(b.subrange(pos + 3, pos + 3 + n) =~= enc) by {
        assert forall|j: int| 0 <= j < n implies b.subrange(pos + 3, pos + 3 + n)[j] == enc[j] by {
            assert(eb[3 + j] == enc[j]);
            assert(b[pos + (3 + j)] == eb[3 + j]);
        }
    }
    lemma_decode_encode(string);
}

/// A written `Integer` or `Float` entry is parsed back.
proof fn lemma_parse_four(b: Seq<u8>, pos: int, e: EntryModel)
    requires
        written_at(b, pos, e),
        e is Integer || e is Float,
    ensures
        parse_entry(b, pos) == Ok::<(EntryModel, int), Error>((e, entry_bytes(e).len() as int)),
{
    reveal(parse_entry);
    let eb = entry_bytes(e);
    lemma_bytes_at(b, pos, eb);
    assert(b[pos] == eb[0]);
    let v: u32 = match e {
        EntryModel::Integer { bytes } => bytes as u32,
        EntryModel::Float { bytes } => bytes,
        _ => 0,
    };
    assert forall|j: int| 0 <= j < 4 implies b[(pos + 1) + j] == #[trigger] u32_bytes(v)[j] by {
        assert(eb[1 + j] == u32_bytes(v)[j]);
        assert(b[pos + (1 + j)] == eb[1 + j]);
    }
    lemma_be_u32_at(b, pos + 1, v);
    if e is Integer {
        let bytes = e->Integer_bytes;
        assert((bytes as u32) as i32 == bytes) by (bit_vector);
    }
}

/// A written `Long` or `Double` entry is parsed back.
proof fn lemma_parse_eight(b: Seq<u8>, pos: int, e: EntryModel)
    requires
        written_at(b, pos, e),
        e is Long || e is Double,
    ensures
        parse_entry(b, pos) == Ok::<(EntryModel, int), Error>((e, entry_bytes(e).len() as int)),
{
    reveal(parse_entry);
    let eb = entry_bytes(e);
    lemma_bytes_at(b, pos, eb);
    assert(b[pos] == eb[0]);
    let v: u64 = match e {
        EntryModel::Long { bytes } => bytes as u64,
        EntryModel::Double { bytes } => bytes,
        _ => 0,
    };
    assert forall|j: int| 0 <= j < 8 implies b[(pos + 1) + j] == #[trigger] u64_bytes(v)[j] by {
        assert(eb[1 + j] == u64_bytes(v)[j]);
        assert(b[pos + (1 + j)] == eb[1 + j]);
    }
    lemma_be_u64_at(b, pos + 1, v);
    if e is Long {
        let bytes = e->Long_bytes;
        assert((bytes as u64) as i64 == bytes) by (bit_vector);
    }
}

/// The single index of an entry that has one.
pub open spec fn single_index(e: EntryModel) -> u16 {
    match e {
        EntryModel::Class { name_index } => name_index,
        EntryModel::String { string_index } => string_index,
        EntryModel::MethodType { descriptor_index } => descriptor_index,
        EntryModel::Module { name_index } => name_index,
        EntryModel::Package { name_index } => name_index,
        _ => 0,
    }
}

/// A written entry with one index is parsed back.
proof fn lemma_parse_one_index(b: Seq<u8>, pos: int, e: EntryModel)
    requires
        written_at(b, pos, e),
        e is Class || e is String || e is MethodType || e is Module || e is Package,
    ensures
        parse_entry(b, pos) == Ok::<(EntryModel, int), Error>((e, entry_bytes(e).len() as int)),
{
    reveal(parse_entry);
    let eb = entry_bytes(e);
    lemma_bytes_at(b, pos, eb);
    assert(b[pos] == eb[0]);
    assert(b[pos + 1] == eb[1] && b[pos + 2] == eb[2]);
    assert(eb =~= seq![eb[0]] + u16_bytes(single_index(e)));
    lemma_be_u16_at(b, pos + 1, single_index(e));
}

/// The two indices of an entry that has two.
pub open spec fn two_indices(e: EntryModel) -> (u16, u16) {
    match e {
        EntryModel::FieldRef { class_index, name_and_type_index } => (class_index, name_and_type_index),
        EntryModel::MethodRef { class_index, name_and_type_index } => (class_index, name_and_type_index),
        EntryModel::InterfaceMethodRef { class_index, name_and_type_index } => (class_index, name_and_type_index),
        EntryModel::NameAndType { name_index, descriptor_index } => (name_index, descriptor_index),
        EntryModel::Dynamic { bootstrap_method_attribute_index, name_and_type_index } =>
            (bootstrap_method_attribute_index, name_and_type_index),
        EntryModel::InvokeDynamic { bootstrap_method_attribute_index, name_and_type_index } =>
            (bootstrap_method_attribute_index, name_and_type_index),
        _ => (0, 0),
    }
}

/// A written entry with two indices is parsed back.
proof fn lemma_parse_two_indices(b: Seq<u8>, pos: int, e: EntryModel)
    requires
        written_at(b, pos, e),
        e is FieldRef || e is MethodRef || e is InterfaceMethodRef || e is NameAndType || e is Dynamic || e is InvokeDynamic,
    ensures
        parse_entry(b, pos) == Ok::<(EntryModel, int), Error>((e, entry_bytes(e).len() as int)),
{
    reveal(parse_entry);
    let eb = entry_bytes(e);
    lemma_bytes_at(b, pos, eb);
    let (i, j) = two_indices(e);
    assert(eb =~= seq![eb[0]] + u16_bytes(i) + u16_bytes(j));
    assert(b[pos] == eb[0]);
    assert(b[pos + 1] == eb[1] && b[pos + 2] == eb[2] && b[pos + 3] == eb[3] && b[pos + 4] == eb[4]);
    lemma_be_u16_at(b, pos + 1, i);
    lemma_be_u16_at(b, pos + 3, j);
}

/// A written `MethodHandle` entry is parsed back.
proof fn lemma_parse_handle(b: Seq<u8>, pos: int, e: EntryModel)
    requires
        written_at(b, pos, e),
        e is MethodHandle,
    ensures
        parse_entry(b, pos) == Ok::<(EntryModel, int), Error>((e, entry_bytes(e).len() as int)),
{
    reveal(parse_entry);
    let eb = entry_bytes(e);
    lemma_bytes_at(b, pos, eb);
    assert(b[pos] == eb[0]);
    assert(b[pos + 1] == eb[1]);
    assert(b[pos + 2] == eb[2] && b[pos + 3] == eb[3]);
    lemma_be_u16_at(b, pos + 2, e->reference_index);
}

/// The entry written at `pos` is parsed back from there.
proof fn lemma_parse_written(b: Seq<u8>, pos: int, e: EntryModel)
    requires
        written_at(b, pos, e),
    ensures
        parse_entry(b, pos) == Ok::<(EntryModel, int), Error>((e, entry_bytes(e).len() as int)),
{
    match e {
        EntryModel::Utf8 { .. } => lemma_parse_utf8(b, pos, e),
        EntryModel::Integer { .. } | EntryModel::Float { .. } => lemma_parse_four(b, pos, e),
        EntryModel::Long { .. } | EntryModel::Double { .. } => lemma_parse_eight(b, pos, e),
        EntryModel::MethodHandle { .. } => lemma_parse_handle(b, pos, e),
        EntryModel::Class { .. } | EntryModel::String { .. } | EntryModel::MethodType { .. }
            | EntryModel::Module { .. } | EntryModel::Package { .. } => lemma_parse_one_index(b, pos, e),
        _ => lemma_parse_two_indices(b, pos, e),
    }
}

/// Entries written from `pos` on are read back, filling the slots up to `count`.
proof fn lemma_read_entries_written(b: Seq<u8>, pos: int, rest: Seq<EntryModel>, filled: int, count: int)
    requires
        0 <= pos,
        pos + entries_bytes(rest).len() <= b.len(),
        b.subrange(pos, pos + entries_bytes(rest).len()) == entries_bytes(rest),
        filled + slots(rest).len() == count,
        all_writable(rest),
        strings_round_trip(rest),
    ensures
        read_entries(b, pos, filled, count)
            == Ok::<(Seq<Option<EntryModel>>, int), Error>((slots(rest), pos + entries_bytes(rest).len())),
    decreases rest.len(),
{
    if rest.len() == 0 {
        assert(slots(rest) =~= Seq::<Option<EntryModel>>::empty());
    } else {
        let e = rest[0];
        let eb = entry_bytes(e);
        let tail = rest.skip(1);
        let all = entries_bytes(rest);
        assert(all == eb + entries_bytes(tail));
        assert(b.subrange(pos, pos + eb.len()) =~= all.subrange(0, eb.len() as int)) by {
            assert forall|j: int| 0 <= j < eb.len() implies b.subrange(pos, pos + eb.len())[j] == all.subrange(0, eb.len() as int)[j] by {
                assert(b.subrange(pos, pos + all.len())[j] == b[pos + j]);
            }
        }
        assert(all.subrange(0, eb.len() as int) =~= eb);
        assert(writable(rest[0]));
        assert(rest[0] matches EntryModel::Utf8 { string } ==> well_formed_code_points(string));
        lemma_parse_written(b, pos, e);
        let p2 = pos + eb.len();
        let tb = entries_bytes(tail);
        assert(b.subrange(p2, p2 + tb.len()) =~= tb) by {
            assert forall|j: int| 0 <= j < tb.len() implies b.subrange(p2, p2 + tb.len())[j] == tb[j] by {
                assert(b.subrange(pos, pos + all.len())[eb.len() + j] == b[pos + eb.len() + j]);
                assert(all[eb.len() + j] == tb[j]);
            }
        }
        assert forall|k: int| 0 <= k < tail.len() implies #[trigger] writable(tail[k]) by {
            assert(tail[k] == rest[k + 1]);
        }
        assert forall|k: int| 0 <= k < tail.len() implies (#[trigger] tail[k] matches EntryModel::Utf8 { string }
            ==> well_formed_code_points(string)) by {
            assert(tail[k] == rest[k + 1]);
        }
        assert(slots(rest) == entry_slots(e) + slots(tail));
        assert(entry_slots(e).len() == width(e));
        lemma_read_entries_written(b, p2, tail, filled + width(e), count);
    }
}

/// Writing a pool and reading it back from the same place gives its slots:
/// an empty slot at index zero, then each entry, with an empty slot after
/// each `Long` and `Double`. This holds whatever comes before and after the
/// pool, for pools whose strings all can be written and read back unchanged.
pub proof fn lemma_write_read(es: Seq<EntryModel>, before: Seq<u8>, after: Seq<u8>)
    requires
        pool_count(es) <= 0xFFFF,
        all_writable(es),
        strings_round_trip(es),
    ensures
        read_pool(before + pool_bytes(es) + after, before.len() as int)
            == Ok::<(Seq<Option<EntryModel>>, int), Error>((pool_slots(es), before.len() + pool_bytes(es).len() as int)),
{
    let b = before + pool_bytes(es) + after;
    let p0 = before.len() as int;
    let c = pool_count(es) as u16;
    let eb = entries_bytes(es);
    assert(b[p0] == u16_bytes(c)[0]);
    assert(b[p0 + 1] == u16_bytes(c)[1]);
    lemma_be_u16_at(b, p0, c);
    assert(b.subrange(p0 + 2, p0 + 2 + eb.len()) =~= eb) by {
        assert forall|j: int| 0 <= j < eb.len() implies b.subrange(p0 + 2, p0 + 2 + eb.len())[j] == eb[j] by {
            assert(b[p0 + 2 + j] == pool_bytes(es)[2 + j]);
        }
    }
    lemma_read_entries_written(b, p0 + 2, es, 1, pool_count(es));
}

/// Writes one entry: its tag, then its fields.
fn write_entry(w: &mut Vec<u8>, entry: &PoolEntry) -> (r: Result<(), Error>)
    ensures
        writable(entry@) ==> r is Ok && final(w)@ == old(w)@ + entry_bytes(entry@),
        !writable(entry@) ==> r == Err::<(), Error>(Error::ValueTooLarge) && final(w)@ == old(w)@.push(UTF8),
{
    let ghost w0 = w@;
    match entry {
        PoolEntry::Utf8 { string } => {
            write_u8(w, UTF8);
            let vec = from_string_to_vec(string);
            write_usize_as_u16(w, vec.len())?;
            write_u8_slice(w, vec.as_slice());
        },
        PoolEntry::Integer { bytes } => {
            write_u8(w, INTEGER);
            write_i32(w, *bytes);
        },
        PoolEntry::Float { bytes } => {
            write_u8(w, FLOAT);
            write_u32(w, *bytes);
        },
        PoolEntry::Long { bytes } => {
            write_u8(w, LONG);
            write_i64(w, *bytes);
        },
        PoolEntry::Double { bytes } => {
            write_u8(w, DOUBLE);
            write_u64(w, *bytes);
        },
        PoolEntry::Class { name_index } => {
            write_u8(w, CLASS);
            write_u16(w, *name_index);
        },
        PoolEntry::String { string_index } => {
            write_u8(w, STRING);
            write_u16(w, *string_index);
        },
        PoolEntry::FieldRef { class_index, name_and_type_index } => {
            write_u8(w, FIELD_REF);
            write_u16(w, *class_index);
            write_u16(w, *name_and_type_index);
        },
        PoolEntry::MethodRef { class_index, name_and_type_index } => {
            write_u8(w, METHOD_REF);
            write_u16(w, *class_index);
            write_u16(w, *name_and_type_index);
        },
        PoolEntry::InterfaceMethodRef { class_index, name_and_type_index } => {
            write_u8(w, INTERFACE_METHOD_REF);
            write_u16(w, *class_index);
            write_u16(w, *name_and_type_index);
        },
        PoolEntry::NameAndType { name_index, descriptor_index } => {
            write_u8(w, NAME_AND_TYPE);
            write_u16(w, *name_index);
            write_u16(w, *descriptor_index);
        },
        PoolEntry::MethodHandle { reference_kind, reference_index } => {
            write_u8(w, METHOD_HANDLE);
            write_u8(w, *reference_kind);
            write_u16(w, *reference_index);
        },
        PoolEntry::MethodType { descriptor_index } => {
            write_u8(w, METHOD_TYPE);
            write_u16(w, *descriptor_index);
        },
        PoolEntry::Dynamic { bootstrap_method_attribute_index, name_and_type_index } => {
            write_u8(w, DYNAMIC);
            write_u16(w, *bootstrap_method_attribute_index);
            write_u16(w, *name_and_type_index);
        },
        PoolEntry::InvokeDynamic { bootstrap_method_attribute_index, name_and_type_index } => {
            write_u8(w, INVOKE_DYNAMIC);
            write_u16(w, *bootstrap_method_attribute_index);
            write_u16(w, *name_and_type_index);
        },
        PoolEntry::Module { name_index } => {
            write_u8(w, MODULE);
            write_u16(w, *name_index);
        },
        PoolEntry::Package { name_index } => {
            write_u8(w, PACKAGE);
            write_u16(w, *name_index);
        },
    }
    assert(w@ =~= w0 + entry_bytes(entry@));
    Ok(())
}

impl PoolWrite {
    /// Writes the constant pool: first its count as a `u16`, then each entry.
    ///
    /// Fails with [`Error::ValueTooLarge`] at the first string whose encoding
    /// is longer than 65535 bytes, after its tag has been written.
    pub fn write(self, w: &mut Vec<u8>) -> (r: Result<(), Error>)
        requires
            self.wf(),
        ensures
            all_writable(self@) ==> r is Ok && final(w)@ == old(w)@ + pool_bytes(self@),
            !all_writable(self@) ==> r == Err::<(), Error>(Error::ValueTooLarge)
                && final(w)@ == old(w)@ + u16_bytes(pool_count(self@) as u16)
                    + entries_bytes(self@.take(first_unwritable(self@))) + seq![UTF8],
    {
        let ghost es = self@;
        let ghost w0 = w@;
        write_u16(w, self.count);
        let mut k: usize = 0;
        proof {
            assert(es.take(0) =~= Seq::<EntryModel>::empty());
            assert(w@ =~= w0 + u16_bytes(self.count) + entries_bytes(es.take(0)));
        }
        while k < self.inner.len()
            invariant
                self@ == es,
                self.wf(),
                self.inner@.len() == es.len(),
                k <= es.len(),
                w0 == old(w)@,
                w@ == w0 + u16_bytes(pool_count(es) as u16) + entries_bytes(es.take(k as int)),
                forall|j: int| 0 <= j < k ==> #[trigger] writable(es[j]),
            decreases es.len() - k,
        {
            assert(self.inner@[k as int]@ == es[k as int]);
            let ghost wk = w@;
            let res = write_entry(w, &self.inner[k]);
            match res {
                Ok(()) => {},
                Err(x) => {
                    proof {
                        let ki = k as int;
                        assert(!writable(es[ki]));
                        assert(0 <= ki < es.len() && !writable(es[ki])
                            && forall|j: int| 0 <= j < ki ==> #[trigger] writable(es[j]));
                        let f = first_unwritable(es);
                        assert(0 <= f < es.len() && !writable(es[f])
                            && forall|j: int| 0 <= j < f ==> #[trigger] writable(es[j]));
                        assert(f == ki) by {
                            if f < ki {
                                assert(writable(es[f]));
                            } else if f > ki {
                                assert(writable(es[ki]));
                            }
                        }
                        assert(w@ =~= wk.push(UTF8));
                        assert(w@ =~= w0 + u16_bytes(pool_count(es) as u16) + entries_bytes(es.take(f)) + seq![UTF8]);
                    }
                    return Err(x);
                },
            }
            proof {
                lemma_entries_bytes_take(es, k as int);
            }
            k = k + 1;
        }
        proof {
            assert(es.take(es.len() as int) =~= es);
        }
        Ok(())
    }
}

/// A method handle is written with the reference kind the JVMS gives its
/// kind of handle: `1` getField, `2` getStatic, `3` putField, `4` putStatic,
/// `5` invokeVirtual, `6` invokeStatic, `7` invokeSpecial, `8`
/// newInvokeSpecial, `9` invokeInterface.
pub proof fn lemma_method_handle_written_kinds(es: Seq<EntryModel>, h: HandleModel)
    ensures
        h is GetField ==> put_handle_target_spec(es, h).0 == 1,
        h is GetStatic ==> put_handle_target_spec(es, h).0 == 2,
        h is PutField ==> put_handle_target_spec(es, h).0 == 3,
        h is PutStatic ==> put_handle_target_spec(es, h).0 == 4,
        h is InvokeVirtual ==> put_handle_target_spec(es, h).0 == 5,
        h is InvokeStatic ==> put_handle_target_spec(es, h).0 == 6,
        h is InvokeSpecial ==> put_handle_target_spec(es, h).0 == 7,
        h is NewInvokeSpecial ==> put_handle_target_spec(es, h).0 == 8,
        h is InvokeInterface ==> put_handle_target_spec(es, h).0 == 9,
{
}

/// Each kind of constant pool entry is written with its JVMS tag first: `Utf8` 1, `Integer` 3, `Float` 4, `Long` 5, `Double` 6, `Class` 7, `String` 8, `FieldRef` 9, `MethodRef` 10, `InterfaceMethodRef` 11, `NameAndType` 12, `MethodHandle` 15, `MethodType` 16, `Dynamic` 17, `InvokeDynamic` 18, `Module` 19, `Package` 20.
pub proof fn lemma_entry_written_tags(e: EntryModel)
    ensures
        e is Utf8 ==> entry_bytes(e)[0] == 1,
        e is Integer ==> entry_bytes(e)[0] == 3,
        e is Float ==> entry_bytes(e)[0] == 4,
        e is Long ==> entry_bytes(e)[0] == 5,
        e is Double ==> entry_bytes(e)[0] == 6,
        e is Class ==> entry_bytes(e)[0] == 7,
        e is String ==> entry_bytes(e)[0] == 8,
        e is FieldRef ==> entry_bytes(e)[0] == 9,
        e is MethodRef ==> entry_bytes(e)[0] == 10,
        e is InterfaceMethodRef ==> entry_bytes(e)[0] == 11,
        e is NameAndType ==> entry_bytes(e)[0] == 12,
        e is MethodHandle ==> entry_bytes(e)[0] == 15,
        e is MethodType ==> entry_bytes(e)[0] == 16,
        e is Dynamic ==> entry_bytes(e)[0] == 17,
        e is InvokeDynamic ==> entry_bytes(e)[0] == 18,
        e is Module ==> entry_bytes(e)[0] == 19,
        e is Package ==> entry_bytes(e)[0] == 20,
{
}

} // verus!


