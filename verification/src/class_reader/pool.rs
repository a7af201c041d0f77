//! The constant pool: its entries, reading it from class file bytes, and
//! looking up entries by index.
use vstd::prelude::*;
use crate::bytes::{ClassReader, be_u16, be_u32, be_u64};
use crate::error::Error;
use crate::jstring::{JavaString, decode, from_vec_to_string};
use crate::tree::class::{ClassName, ObjClassName};
use crate::tree::code::{Handle, HandleModel};
use crate::tree::field::{FieldRef, FieldName, FieldDescriptor, RefModel};
use crate::tree::method::{MethodRef, MethodName, MethodDescriptor};
use crate::tree::module::{PackageName, ModuleName};

verus! {

pub const UTF8: u8 = 1;
pub const INTEGER: u8 = 3;
pub const FLOAT: u8 = 4;
pub const LONG: u8 = 5;
pub const DOUBLE: u8 = 6;
pub const CLASS: u8 = 7;
pub const STRING: u8 = 8;
pub const FIELD_REF: u8 = 9;
pub const METHOD_REF: u8 = 10;
pub const INTERFACE_METHOD_REF: u8 = 11;
pub const NAME_AND_TYPE: u8 = 12;
pub const METHOD_HANDLE: u8 = 15;
pub const METHOD_TYPE: u8 = 16;
pub const DYNAMIC: u8 = 17;
pub const INVOKE_DYNAMIC: u8 = 18;
pub const MODULE: u8 = 19;
pub const PACKAGE: u8 = 20;

/// A constant pool entry, with references to other entries as raw indices.
#[derive(Debug)]
pub enum PoolEntry {
    Class { name_index: u16 },
    FieldRef { class_index: u16, name_and_type_index: u16 },
    MethodRef { class_index: u16, name_and_type_index: u16 },
    InterfaceMethodRef { class_index: u16, name_and_type_index: u16 },
    String { string_index: u16 },
    Integer { bytes: i32 },
    Float { bytes: u32 },
    Long { bytes: i64 },
    Double { bytes: u64 },
    NameAndType { name_index: u16, descriptor_index: u16 },
    Utf8 { string: JavaString },
    MethodHandle { reference_kind: u8, reference_index: u16 },
    MethodType { descriptor_index: u16 },
    Dynamic { bootstrap_method_attribute_index: u16, name_and_type_index: u16 },
    InvokeDynamic { bootstrap_method_attribute_index: u16, name_and_type_index: u16 },
    Module { name_index: u16 },
    Package { name_index: u16 },
}

/// The model of a [`PoolEntry`]: the same, with strings as code point sequences.
pub ghost enum EntryModel {
    Class { name_index: u16 },
    FieldRef { class_index: u16, name_and_type_index: u16 },
    MethodRef { class_index: u16, name_and_type_index: u16 },
    InterfaceMethodRef { class_index: u16, name_and_type_index: u16 },
    String { string_index: u16 },
    Integer { bytes: i32 },
    Float { bytes: u32 },
    Long { bytes: i64 },
    Double { bytes: u64 },
    NameAndType { name_index: u16, descriptor_index: u16 },
    Utf8 { string: Seq<u32> },
    MethodHandle { reference_kind: u8, reference_index: u16 },
    MethodType { descriptor_index: u16 },
    Dynamic { bootstrap_method_attribute_index: u16, name_and_type_index: u16 },
    InvokeDynamic { bootstrap_method_attribute_index: u16, name_and_type_index: u16 },
    Module { name_index: u16 },
    Package { name_index: u16 },
}

impl View for PoolEntry {
    type V = EntryModel;

    open spec fn view(&self) -> EntryModel {
        match self {
            PoolEntry::Class { name_index } => EntryModel::Class { name_index: *name_index },
            PoolEntry::FieldRef { class_index, name_and_type_index } =>
                EntryModel::FieldRef { class_index: *class_index, name_and_type_index: *name_and_type_index },
            PoolEntry::MethodRef { class_index, name_and_type_index } =>
                EntryModel::MethodRef { class_index: *class_index, name_and_type_index: *name_and_type_index },
            PoolEntry::InterfaceMethodRef { class_index, name_and_type_index } =>
                EntryModel::InterfaceMethodRef { class_index: *class_index, name_and_type_index: *name_and_type_index },
            PoolEntry::String { string_index } => EntryModel::String { string_index: *string_index },
            PoolEntry::Integer { bytes } => EntryModel::Integer { bytes: *bytes },
            PoolEntry::Float { bytes } => EntryModel::Float { bytes: *bytes },
            PoolEntry::Long { bytes } => EntryModel::Long { bytes: *bytes },
            PoolEntry::Double { bytes } => EntryModel::Double { bytes: *bytes },
            PoolEntry::NameAndType { name_index, descriptor_index } =>
                EntryModel::NameAndType { name_index: *name_index, descriptor_index: *descriptor_index },
            PoolEntry::Utf8 { string } => EntryModel::Utf8 { string: string@ },
            PoolEntry::MethodHandle { reference_kind, reference_index } =>
                EntryModel::MethodHandle { reference_kind: *reference_kind, reference_index: *reference_index },
            PoolEntry::MethodType { descriptor_index } => EntryModel::MethodType { descriptor_index: *descriptor_index },
            PoolEntry::Dynamic { bootstrap_method_attribute_index, name_and_type_index } =>
                EntryModel::Dynamic { bootstrap_method_attribute_index: *bootstrap_method_attribute_index, name_and_type_index: *name_and_type_index },
            PoolEntry::InvokeDynamic { bootstrap_method_attribute_index, name_and_type_index } =>
                EntryModel::InvokeDynamic { bootstrap_method_attribute_index: *bootstrap_method_attribute_index, name_and_type_index: *name_and_type_index },
            PoolEntry::Module { name_index } => EntryModel::Module { name_index: *name_index },
            PoolEntry::Package { name_index } => EntryModel::Package { name_index: *name_index },
        }
    }
}

/// `Long` and `Double` entries take up two pool slots.
pub open spec fn is_wide(e: EntryModel) -> bool {
    e is Long || e is Double
}

/// The pool slots an entry takes: the entry, and an empty slot after a wide one.
pub open spec fn entry_slots(e: EntryModel) -> Seq<Option<EntryModel>> {
    if is_wide(e) { seq![Some(e), None] } else { seq![Some(e)] }
}

/// Whether `n` bytes are there from `pos` on.
pub open spec fn enough(b: Seq<u8>, pos: int, n: int) -> bool {
    pos + n <= b.len()
}

/// Parses the entry starting at `pos` (its tag byte), returning it and its size in bytes.
#[verifier::opaque]
pub open spec fn parse_entry(b: Seq<u8>, pos: int) -> Result<(EntryModel, int), Error> {
    if !enough(b, pos, 1) {
        Err(Error::UnexpectedEnd)
    } else {
        let tag = b[pos];
        let p = pos + 1;
        if tag == UTF8 {
            if !enough(b, p, 2) {
                Err(Error::UnexpectedEnd)
            } else {
                let n = be_u16(b, p) as int;
                if !enough(b, p + 2, n) {
                    Err(Error::UnexpectedEnd)
                } else {
                    match decode(b.subrange(p + 2, p + 2 + n)) {
                        Some(s) => Ok((EntryModel::Utf8 { string: s }, 3 + n)),
                        None => Err(Error::InvalidModifiedUtf8),
                    }
                }
            }
        } else if tag == INTEGER || tag == FLOAT {
            if !enough(b, p, 4) {
                Err(Error::UnexpectedEnd)
            } else if tag == INTEGER {
                Ok((EntryModel::Integer { bytes: be_u32(b, p) as i32 }, 5))
            } else {
                Ok((EntryModel::Float { bytes: be_u32(b, p) }, 5))
            }
        } else if tag == LONG || tag == DOUBLE {
            if !enough(b, p, 8) {
                Err(Error::UnexpectedEnd)
            } else if tag == LONG {
                Ok((EntryModel::Long { bytes: be_u64(b, p) as i64 }, 9))
            } else {
                Ok((EntryModel::Double { bytes: be_u64(b, p) }, 9))
            }
        } else if tag == CLASS || tag == STRING || tag == METHOD_TYPE || tag == MODULE || tag == PACKAGE {
            if !enough(b, p, 2) {
                Err(Error::UnexpectedEnd)
            } else {
                let i = be_u16(b, p);
                Ok((if tag == CLASS {
                    EntryModel::Class { name_index: i }
                } else if tag == STRING {
                    EntryModel::String { string_index: i }
                } else if tag == METHOD_TYPE {
                    EntryModel::MethodType { descriptor_index: i }
                } else if tag == MODULE {
                    EntryModel::Module { name_index: i }
                } else {
                    EntryModel::Package { name_index: i }
                }, 3))
            }
        } else if tag == FIELD_REF || tag == METHOD_REF || tag == INTERFACE_METHOD_REF || tag == NAME_AND_TYPE
            || tag == DYNAMIC || tag == INVOKE_DYNAMIC {
            if !enough(b, p, 4) {
                Err(Error::UnexpectedEnd)
            } else {
                let i = be_u16(b, p);
                let j = be_u16(b, p + 2);
                Ok((if tag == FIELD_REF {
                    EntryModel::FieldRef { class_index: i, name_and_type_index: j }
                } else if tag == METHOD_REF {
                    EntryModel::MethodRef { class_index: i, name_and_type_index: j }
                } else if tag == INTERFACE_METHOD_REF {
                    EntryModel::InterfaceMethodRef { class_index: i, name_and_type_index: j }
                } else if tag == NAME_AND_TYPE {
                    EntryModel::NameAndType { name_index: i, descriptor_index: j }
                } else if tag == DYNAMIC {
                    EntryModel::Dynamic { bootstrap_method_attribute_index: i, name_and_type_index: j }
                } else {
                    EntryModel::InvokeDynamic { bootstrap_method_attribute_index: i, name_and_type_index: j }
                }, 5))
            }
        } else if tag == METHOD_HANDLE {
            if !enough(b, p, 3) {
                Err(Error::UnexpectedEnd)
            } else {
                Ok((EntryModel::MethodHandle { reference_kind: b[p], reference_index: be_u16(b, p + 1) }, 4))
            }
        } else {
            Err(Error::UnknownTag)
        }
    }
}

/// Reads entries from `pos` on while fewer than `count` slots are filled.
pub open spec fn read_entries(b: Seq<u8>, pos: int, filled: int, count: int) -> Result<(Seq<Option<EntryModel>>, int), Error>
    decreases count - filled + 1,
{
    if filled >= count {
        Ok((Seq::empty(), pos))
    } else {
        match parse_entry(b, pos) {
            Ok((e, n)) => {
                let add = if is_wide(e) { 2int } else { 1int };
                match read_entries(b, pos + n, filled + add, count) {
                    Ok((rest, end)) => Ok((entry_slots(e) + rest, end)),
                    Err(x) => Err(x),
                }
            },
            Err(x) => Err(x),
        }
    }
}

/// Reads a constant pool starting at `pos`: a `u16` count, then the entries.
/// The slot at index zero is empty.
pub open spec fn read_pool(b: Seq<u8>, pos: int) -> Result<(Seq<Option<EntryModel>>, int), Error> {
    if !enough(b, pos, 2) {
        Err(Error::UnexpectedEnd)
    } else {
        match read_entries(b, pos + 2, 1, be_u16(b, pos) as int) {
            Ok((s, end)) => Ok((seq![None] + s, end)),
            Err(x) => Err(x),
        }
    }
}

/// The model of a pool slot.
pub open spec fn slot_view(o: Option<PoolEntry>) -> Option<EntryModel> {
    match o {
        Some(e) => Some(e@),
        None => None,
    }
}

/// The constant pool of a class file, as read.
#[derive(Debug)]
pub struct PoolRead {
    /// There is a `None` for the zero index, as well as for the upper indices of `Double` and `Long`.
    inner: Vec<Option<PoolEntry>>,
}

impl View for PoolRead {
    type V = Seq<Option<EntryModel>>;

    closed spec fn view(&self) -> Seq<Option<EntryModel>> {
        self.inner@.map_values(|o: Option<PoolEntry>| slot_view(o))
    }
}

/// Reads one entry: the exec counterpart of [`parse_entry`].
fn read_entry(reader: &mut ClassReader) -> (r: Result<PoolEntry, Error>)
    ensures
        final(reader).data() == old(reader).data(),
        match parse_entry(old(reader).data(), old(reader).position() as int) {
            Ok((e, n)) => r matches Ok(x) && x@ == e && final(reader).position() == old(reader).position() + n,
            Err(x) => r == Err::<PoolEntry, Error>(x),
        },
{
    let ghost b = reader.data();
    let ghost pos = reader.position() as int;
    reveal(parse_entry);
    let tag = reader.read_u8()?;
    if tag == UTF8 {
        let length = reader.read_u16_as_usize()?;
        let vec = reader.read_u8_vec(length)?;
        let string = from_vec_to_string(vec)?;
        Ok(PoolEntry::Utf8 { string })
    } else if tag == INTEGER {
        let bytes = reader.read_i32()?;
        Ok(PoolEntry::Integer { bytes })
    } else if tag == FLOAT {
        let bytes = reader.read_u32()?;
        Ok(PoolEntry::Float { bytes })
    } else if tag == LONG {
        let bytes = reader.read_i64()?;
        Ok(PoolEntry::Long { bytes })
    } else if tag == DOUBLE {
        let bytes = reader.read_u64()?;
        Ok(PoolEntry::Double { bytes })
    } else if tag == CLASS {
        let name_index = reader.read_u16()?;
        Ok(PoolEntry::Class { name_index })
    } else if tag == STRING {
        let string_index = reader.read_u16()?;
        Ok(PoolEntry::String { string_index })
    } else if tag == FIELD_REF {
        let class_index = reader.read_u16()?;
        let name_and_type_index = reader.read_u16()?;
        Ok(PoolEntry::FieldRef { class_index, name_and_type_index })
    } else if tag == METHOD_REF {
        let class_index = reader.read_u16()?;
        let name_and_type_index = reader.read_u16()?;
        Ok(PoolEntry::MethodRef { class_index, name_and_type_index })
    } else if tag == INTERFACE_METHOD_REF {
        let class_index = reader.read_u16()?;
        let name_and_type_index = reader.read_u16()?;
        Ok(PoolEntry::InterfaceMethodRef { class_index, name_and_type_index })
    } else if tag == NAME_AND_TYPE {
        let name_index = reader.read_u16()?;
        let descriptor_index = reader.read_u16()?;
        Ok(PoolEntry::NameAndType { name_index, descriptor_index })
    } else if tag == METHOD_HANDLE {
        let reference_kind = reader.read_u8()?;
        let reference_index = reader.read_u16()?;
        Ok(PoolEntry::MethodHandle { reference_kind, reference_index })
    } else if tag == METHOD_TYPE {
        let descriptor_index = reader.read_u16()?;
        Ok(PoolEntry::MethodType { descriptor_index })
    } else if tag == DYNAMIC {
        let bootstrap_method_attribute_index = reader.read_u16()?;
        let name_and_type_index = reader.read_u16()?;
        Ok(PoolEntry::Dynamic { bootstrap_method_attribute_index, name_and_type_index })
    } else if tag == INVOKE_DYNAMIC {
        let bootstrap_method_attribute_index = reader.read_u16()?;
        let name_and_type_index = reader.read_u16()?;
        Ok(PoolEntry::InvokeDynamic { bootstrap_method_attribute_index, name_and_type_index })
    } else if tag == MODULE {
        let name_index = reader.read_u16()?;
        Ok(PoolEntry::Module { name_index })
    } else if tag == PACKAGE {
        let name_index = reader.read_u16()?;
        Ok(PoolEntry::Package { name_index })
    } else {
        Err(Error::UnknownTag)
    }
}

impl PoolRead {
    /// Reads the constant pool. The first thing read is an `u16` specifying the size of the constant pool.
    ///
    /// On success the reader is positioned after the pool; on failure the
    /// error is the first one met, and the position is not specified.
    pub fn read(reader: &mut ClassReader) -> (r: Result<PoolRead, Error>)
        ensures
            final(reader).data() == old(reader).data(),
            match read_pool(old(reader).data(), old(reader).position() as int) {
                Ok((slots, end)) => r matches Ok(p) && p@ == slots && final(reader).position() == end,
                Err(x) => r == Err::<PoolRead, Error>(x),
            },
    {
        let ghost b = reader.data();
        let ghost start = reader.position() as int;
        let constant_pool_count = reader.read_u16_as_usize()?;
        let mut pool: Vec<Option<PoolEntry>> = Vec::new();
        pool.push(None);
        assert(pool@.map_values(|o: Option<PoolEntry>| slot_view(o)) =~= seq![None::<EntryModel>]);
        while pool.len() < constant_pool_count
            invariant
                reader.data() == b,
                b == old(reader).data(),
                start == old(reader).position(),
                constant_pool_count < 0x10000,
                1 <= pool@.len() <= constant_pool_count + 1,
                start + 2 <= b.len(),
                constant_pool_count == be_u16(b, start) as int,
                read_pool(b, start) == match read_entries(b, reader.position() as int, pool@.len() as int, constant_pool_count as int) {
                    Ok((rest, end)) => Ok::<(Seq<Option<EntryModel>>, int), Error>((pool@.map_values(|o: Option<PoolEntry>| slot_view(o)) + rest, end)),
                    Err(x) => Err(x),
                },
            decreases constant_pool_count + 1 - pool@.len(),
        {
            let ghost before = pool@.map_values(|o: Option<PoolEntry>| slot_view(o));
            let ghost pos = reader.position() as int;
            let entry = read_entry(reader)?;
            let wide = match entry {
                PoolEntry::Long { .. } | PoolEntry::Double { .. } => true,
                _ => false,
            };
            let ghost e = entry@;
            pool.push(Some(entry));
            if wide {
                pool.push(None);
            }
            proof {
                let now = pool@.map_values(|o: Option<PoolEntry>| slot_view(o));
                assert(now =~= before + entry_slots(e));
                match read_entries(b, reader.position() as int, pool@.len() as int, constant_pool_count as int) {
                    Ok((rest, end)) => {
                        assert(before + (entry_slots(e) + rest) == now + rest);
                    },
                    Err(x) => {},
                }
            }
        }
        proof {
            assert(pool@.map_values(|o: Option<PoolEntry>| slot_view(o)) + Seq::<Option<EntryModel>>::empty()
                == pool@.map_values(|o: Option<PoolEntry>| slot_view(o)));
        }
        Ok(PoolRead { inner: pool })
    }
}


// ----- looking up entries -----

/// The entry at index `i` of the pool `p`.
pub open spec fn pool_get(p: Seq<Option<EntryModel>>, i: u16) -> Result<EntryModel, Error> {
    if (i as int) < p.len() && p[i as int] is Some {
        Ok(p[i as int].unwrap())
    } else {
        Err(Error::MissingPoolEntry)
    }
}

/// The string of a `Utf8` entry.
pub open spec fn utf8_of(e: EntryModel) -> Result<Seq<u32>, Error> {
    match e {
        EntryModel::Utf8 { string } => Ok(string),
        _ => Err(Error::WrongPoolEntry),
    }
}

/// The string of the `Utf8` entry at `i`.
pub open spec fn pool_utf8(p: Seq<Option<EntryModel>>, i: u16) -> Result<Seq<u32>, Error> {
    match pool_get(p, i) {
        Ok(e) => utf8_of(e),
        Err(x) => Err(x),
    }
}

/// The name of a `Class` entry.
pub open spec fn class_of(p: Seq<Option<EntryModel>>, e: EntryModel) -> Result<Seq<u32>, Error> {
    match e {
        EntryModel::Class { name_index } => pool_utf8(p, name_index),
        _ => Err(Error::WrongPoolEntry),
    }
}

/// The name of the `Class` entry at `i`.
pub open spec fn pool_class(p: Seq<Option<EntryModel>>, i: u16) -> Result<Seq<u32>, Error> {
    match pool_get(p, i) {
        Ok(e) => class_of(p, e),
        Err(x) => Err(x),
    }
}

/// The string of a `String` entry.
pub open spec fn string_of(p: Seq<Option<EntryModel>>, e: EntryModel) -> Result<Seq<u32>, Error> {
    match e {
        EntryModel::String { string_index } => pool_utf8(p, string_index),
        _ => Err(Error::WrongPoolEntry),
    }
}

/// The name of a `Package` entry.
pub open spec fn package_of(p: Seq<Option<EntryModel>>, e: EntryModel) -> Result<Seq<u32>, Error> {
    match e {
        EntryModel::Package { name_index } => pool_utf8(p, name_index),
        _ => Err(Error::WrongPoolEntry),
    }
}

/// The name of the `Package` entry at `i`.
pub open spec fn pool_package(p: Seq<Option<EntryModel>>, i: u16) -> Result<Seq<u32>, Error> {
    match pool_get(p, i) {
        Ok(e) => package_of(p, e),
        Err(x) => Err(x),
    }
}

/// The name of a `Module` entry.
pub open spec fn module_of(p: Seq<Option<EntryModel>>, e: EntryModel) -> Result<Seq<u32>, Error> {
    match e {
        EntryModel::Module { name_index } => pool_utf8(p, name_index),
        _ => Err(Error::WrongPoolEntry),
    }
}

/// The name of the `Module` entry at `i`.
pub open spec fn pool_module(p: Seq<Option<EntryModel>>, i: u16) -> Result<Seq<u32>, Error> {
    match pool_get(p, i) {
        Ok(e) => module_of(p, e),
        Err(x) => Err(x),
    }
}

/// The name and descriptor of a `NameAndType` entry.
pub open spec fn name_and_type_of(p: Seq<Option<EntryModel>>, e: EntryModel) -> Result<(Seq<u32>, Seq<u32>), Error> {
    match e {
        EntryModel::NameAndType { name_index, descriptor_index } => match pool_utf8(p, name_index) {
            Ok(name) => match pool_utf8(p, descriptor_index) {
                Ok(desc) => Ok((name, desc)),
                Err(x) => Err(x),
            },
            Err(x) => Err(x),
        },
        _ => Err(Error::WrongPoolEntry),
    }
}

/// The name and descriptor of the `NameAndType` entry at `i`.
pub open spec fn pool_name_and_type(p: Seq<Option<EntryModel>>, i: u16) -> Result<(Seq<u32>, Seq<u32>), Error> {
    match pool_get(p, i) {
        Ok(e) => name_and_type_of(p, e),
        Err(x) => Err(x),
    }
}

/// The reference made of a class index and a name-and-type index.
pub open spec fn ref_of(p: Seq<Option<EntryModel>>, class_index: u16, name_and_type_index: u16) -> Result<RefModel, Error> {
    match pool_class(p, class_index) {
        Ok(class) => match pool_name_and_type(p, name_and_type_index) {
            Ok((name, desc)) => Ok(RefModel { class, name, desc }),
            Err(x) => Err(x),
        },
        Err(x) => Err(x),
    }
}

/// The field of a `FieldRef` entry.
pub open spec fn field_ref_of(p: Seq<Option<EntryModel>>, e: EntryModel) -> Result<RefModel, Error> {
    match e {
        EntryModel::FieldRef { class_index, name_and_type_index } => ref_of(p, class_index, name_and_type_index),
        _ => Err(Error::WrongPoolEntry),
    }
}

/// The method of a `MethodRef` entry.
pub open spec fn method_ref_of(p: Seq<Option<EntryModel>>, e: EntryModel) -> Result<RefModel, Error> {
    match e {
        EntryModel::MethodRef { class_index, name_and_type_index } => ref_of(p, class_index, name_and_type_index),
        _ => Err(Error::WrongPoolEntry),
    }
}

/// The method of an `InterfaceMethodRef` entry.
pub open spec fn interface_method_ref_of(p: Seq<Option<EntryModel>>, e: EntryModel) -> Result<RefModel, Error> {
    match e {
        EntryModel::InterfaceMethodRef { class_index, name_and_type_index } => ref_of(p, class_index, name_and_type_index),
        _ => Err(Error::WrongPoolEntry),
    }
}

/// The method of a `MethodRef` or `InterfaceMethodRef` entry, with `true` for the latter.
pub open spec fn method_or_interface_ref_of(p: Seq<Option<EntryModel>>, e: EntryModel) -> Result<(RefModel, bool), Error> {
    match e {
        EntryModel::MethodRef { class_index, name_and_type_index } => match ref_of(p, class_index, name_and_type_index) {
            Ok(m) => Ok((m, false)),
            Err(x) => Err(x),
        },
        EntryModel::InterfaceMethodRef { class_index, name_and_type_index } => match ref_of(p, class_index, name_and_type_index) {
            Ok(m) => Ok((m, true)),
            Err(x) => Err(x),
        },
        _ => Err(Error::WrongPoolEntry),
    }
}

/// Lifts an entry accessor to an index accessor.
pub open spec fn pool_field_ref(p: Seq<Option<EntryModel>>, i: u16) -> Result<RefModel, Error> {
    match pool_get(p, i) {
        Ok(e) => field_ref_of(p, e),
        Err(x) => Err(x),
    }
}

/// The method of the `MethodRef` entry at `i`.
pub open spec fn pool_method_ref(p: Seq<Option<EntryModel>>, i: u16) -> Result<RefModel, Error> {
    match pool_get(p, i) {
        Ok(e) => method_ref_of(p, e),
        Err(x) => Err(x),
    }
}

/// The method of the `InterfaceMethodRef` entry at `i`.
pub open spec fn pool_interface_method_ref(p: Seq<Option<EntryModel>>, i: u16) -> Result<RefModel, Error> {
    match pool_get(p, i) {
        Ok(e) => interface_method_ref_of(p, e),
        Err(x) => Err(x),
    }
}

/// The method of the `MethodRef` or `InterfaceMethodRef` entry at `i`.
pub open spec fn pool_method_or_interface_ref(p: Seq<Option<EntryModel>>, i: u16) -> Result<(RefModel, bool), Error> {
    match pool_get(p, i) {
        Ok(e) => method_or_interface_ref_of(p, e),
        Err(x) => Err(x),
    }
}

/// The value of an `Integer` entry.
pub open spec fn integer_of(e: EntryModel) -> Result<i32, Error> {
    match e {
        EntryModel::Integer { bytes } => Ok(bytes),
        _ => Err(Error::WrongPoolEntry),
    }
}

/// The value of the `Integer` entry at `i`.
pub open spec fn pool_integer(p: Seq<Option<EntryModel>>, i: u16) -> Result<i32, Error> {
    match pool_get(p, i) {
        Ok(e) => integer_of(e),
        Err(x) => Err(x),
    }
}

/// The value of a `Long` entry.
pub open spec fn long_of(e: EntryModel) -> Result<i64, Error> {
    match e {
        EntryModel::Long { bytes } => Ok(bytes),
        _ => Err(Error::WrongPoolEntry),
    }
}

/// The value of the `Long` entry at `i`.
pub open spec fn pool_long(p: Seq<Option<EntryModel>>, i: u16) -> Result<i64, Error> {
    match pool_get(p, i) {
        Ok(e) => long_of(e),
        Err(x) => Err(x),
    }
}

/// The bits of the `Float` entry at `i`.
pub open spec fn pool_float(p: Seq<Option<EntryModel>>, i: u16) -> Result<u32, Error> {
    match pool_get(p, i) {
        Ok(EntryModel::Float { bytes }) => Ok(bytes),
        Ok(_) => Err(Error::WrongPoolEntry),
        Err(x) => Err(x),
    }
}

/// The bits of the `Double` entry at `i`.
pub open spec fn pool_double(p: Seq<Option<EntryModel>>, i: u16) -> Result<u64, Error> {
    match pool_get(p, i) {
        Ok(EntryModel::Double { bytes }) => Ok(bytes),
        Ok(_) => Err(Error::WrongPoolEntry),
        Err(x) => Err(x),
    }
}

/// The descriptor of a `MethodType` entry.
pub open spec fn method_type_of(p: Seq<Option<EntryModel>>, e: EntryModel) -> Result<Seq<u32>, Error> {
    match e {
        EntryModel::MethodType { descriptor_index } => pool_utf8(p, descriptor_index),
        _ => Err(Error::WrongPoolEntry),
    }
}

/// The handle of a `MethodHandle` entry, by its reference kind: `1` to `4` reference
/// fields, `5` to `9` methods. Other kinds fail with [`Error::UnknownTag`].
pub open spec fn method_handle_of(p: Seq<Option<EntryModel>>, e: EntryModel) -> Result<HandleModel, Error> {
    match e {
        EntryModel::MethodHandle { reference_kind, reference_index } => {
            let k = reference_kind;
            if 1 <= k <= 4 {
                match pool_field_ref(p, reference_index) {
                    Ok(f) => Ok(if k == 1 {
                        HandleModel::GetField(f)
                    } else if k == 2 {
                        HandleModel::GetStatic(f)
                    } else if k == 3 {
                        HandleModel::PutField(f)
                    } else {
                        HandleModel::PutStatic(f)
                    }),
                    Err(x) => Err(x),
                }
            } else if k == 5 || k == 8 {
                match pool_method_ref(p, reference_index) {
                    Ok(m) => Ok(if k == 5 { HandleModel::InvokeVirtual(m) } else { HandleModel::NewInvokeSpecial(m) }),
                    Err(x) => Err(x),
                }
            } else if k == 6 || k == 7 {
                match pool_method_or_interface_ref(p, reference_index) {
                    Ok((m, i)) => Ok(if k == 6 { HandleModel::InvokeStatic(m, i) } else { HandleModel::InvokeSpecial(m, i) }),
                    Err(x) => Err(x),
                }
            } else if k == 9 {
                match pool_interface_method_ref(p, reference_index) {
                    Ok(m) => Ok(HandleModel::InvokeInterface(m)),
                    Err(x) => Err(x),
                }
            } else {
                Err(Error::UnknownTag)
            }
        },
        _ => Err(Error::WrongPoolEntry),
    }
}

/// The handle of the `MethodHandle` entry at `i`.
pub open spec fn pool_method_handle(p: Seq<Option<EntryModel>>, i: u16) -> Result<HandleModel, Error> {
    match pool_get(p, i) {
        Ok(e) => method_handle_of(p, e),
        Err(x) => Err(x),
    }
}

impl PoolEntry {
    /// The string of a `Utf8` entry.
    pub fn as_utf8(&self) -> (r: Result<&JavaString, Error>)
        ensures
            match utf8_of(self@) {
                Ok(v) => r matches Ok(x) && x@ == v,
                Err(e) => r == Err::<&JavaString, Error>(e),
            },
    {
        match self {
            PoolEntry::Utf8 { string } => Ok(string),
            _ => Err(Error::WrongPoolEntry),
        }
    }

    /// The string of a `String` entry.
    pub fn as_string(&self, pool: &PoolRead) -> (r: Result<JavaString, Error>)
        ensures
            match string_of(pool@, self@) {
                Ok(v) => r matches Ok(x) && x@ == v,
                Err(e) => r == Err::<JavaString, Error>(e),
            },
    {
        match self {
            PoolEntry::String { string_index } => pool.get_utf8(*string_index),
            _ => Err(Error::WrongPoolEntry),
        }
    }

    /// The class name of a `Class` entry.
    pub fn as_class(&self, pool: &PoolRead) -> (r: Result<ClassName, Error>)
        ensures
            match class_of(pool@, self@) {
                Ok(v) => r matches Ok(x) && x@ == v,
                Err(e) => r == Err::<ClassName, Error>(e),
            },
    {
        match self {
            PoolEntry::Class { name_index } => {
                let s = pool.get_utf8(*name_index)?;
                Ok(ClassName::from_inner_unchecked(s))
            },
            _ => Err(Error::WrongPoolEntry),
        }
    }

    /// The name and descriptor of a `NameAndType` entry.
    pub fn as_name_and_type<'a>(&self, pool: &'a PoolRead) -> (r: Result<(&'a JavaString, &'a JavaString), Error>)
        ensures
            match name_and_type_of(pool@, self@) {
                Ok((n, d)) => r matches Ok((x, y)) && x@ == n && y@ == d,
                Err(e) => r == Err::<(&JavaString, &JavaString), Error>(e),
            },
    {
        match self {
            PoolEntry::NameAndType { name_index, descriptor_index } => {
                let name = pool.get_utf8_ref(*name_index)?;
                let descriptor = pool.get_utf8_ref(*descriptor_index)?;
                Ok((name, descriptor))
            },
            _ => Err(Error::WrongPoolEntry),
        }
    }

    /// The field of a `FieldRef` entry.
    pub fn as_field_ref(&self, pool: &PoolRead) -> (r: Result<FieldRef, Error>)
        ensures
            match field_ref_of(pool@, self@) {
                Ok(v) => r matches Ok(x) && x@ == v,
                Err(e) => r == Err::<FieldRef, Error>(e),
            },
    {
        match self {
            PoolEntry::FieldRef { class_index, name_and_type_index } => {
                let class = pool.get_class(*class_index)?;
                let (name, desc) = pool.get_name_and_type(*name_and_type_index)?;
                Ok(FieldRef {
                    class: ObjClassName::from_inner_unchecked(class.into_inner()),
                    name: FieldName::from_inner_unchecked(name),
                    desc: FieldDescriptor::from_inner_unchecked(desc),
                })
            },
            _ => Err(Error::WrongPoolEntry),
        }
    }

    /// The method of a `MethodRef` entry.
    pub fn as_method_ref(&self, pool: &PoolRead) -> (r: Result<MethodRef, Error>)
        ensures
            match method_ref_of(pool@, self@) {
                Ok(v) => r matches Ok(x) && x@ == v,
                Err(e) => r == Err::<MethodRef, Error>(e),
            },
    {
        match self {
            PoolEntry::MethodRef { class_index, name_and_type_index } => pool.make_method_ref(*class_index, *name_and_type_index),
            _ => Err(Error::WrongPoolEntry),
        }
    }

    /// The method of an `InterfaceMethodRef` entry.
    pub fn as_interface_method_ref(&self, pool: &PoolRead) -> (r: Result<MethodRef, Error>)
        ensures
            match interface_method_ref_of(pool@, self@) {
                Ok(v) => r matches Ok(x) && x@ == v,
                Err(e) => r == Err::<MethodRef, Error>(e),
            },
    {
        match self {
            PoolEntry::InterfaceMethodRef { class_index, name_and_type_index } => pool.make_method_ref(*class_index, *name_and_type_index),
            _ => Err(Error::WrongPoolEntry),
        }
    }

    /// The method of a `MethodRef` (`false`) or `InterfaceMethodRef` (`true`) entry.
    pub fn as_method_ref_or_interface_method_ref(&self, pool: &PoolRead) -> (r: Result<(MethodRef, bool), Error>)
        ensures
            match method_or_interface_ref_of(pool@, self@) {
                Ok((v, i)) => r matches Ok((x, j)) && x@ == v && j == i,
                Err(e) => r == Err::<(MethodRef, bool), Error>(e),
            },
    {
        let (class_index, name_and_type_index, is_interface) = match self {
            PoolEntry::MethodRef { class_index, name_and_type_index } => (*class_index, *name_and_type_index, false),
            PoolEntry::InterfaceMethodRef { class_index, name_and_type_index } => (*class_index, *name_and_type_index, true),
            _ => { return Err(Error::WrongPoolEntry); },
        };
        let method = pool.make_method_ref(class_index, name_and_type_index)?;
        Ok((method, is_interface))
    }

    /// The package name of a `Package` entry.
    pub fn as_package(&self, pool: &PoolRead) -> (r: Result<PackageName, Error>)
        ensures
            match package_of(pool@, self@) {
                Ok(v) => r matches Ok(x) && x@ == v,
                Err(e) => r == Err::<PackageName, Error>(e),
            },
    {
        match self {
            PoolEntry::Package { name_index } => {
                let s = pool.get_utf8(*name_index)?;
                Ok(PackageName::from_inner_unchecked(s))
            },
            _ => Err(Error::WrongPoolEntry),
        }
    }

    /// The module name of a `Module` entry.
    pub fn as_module(&self, pool: &PoolRead) -> (r: Result<ModuleName, Error>)
        ensures
            match module_of(pool@, self@) {
                Ok(v) => r matches Ok(x) && x@ == v,
                Err(e) => r == Err::<ModuleName, Error>(e),
            },
    {
        match self {
            PoolEntry::Module { name_index } => {
                let s = pool.get_utf8(*name_index)?;
                Ok(ModuleName::from_inner_unchecked(s))
            },
            _ => Err(Error::WrongPoolEntry),
        }
    }

    /// The value of an `Integer` entry.
    pub fn as_integer(&self) -> (r: Result<i32, Error>)
        ensures
            r == integer_of(self@),
    {
        match self {
            PoolEntry::Integer { bytes } => Ok(*bytes),
            _ => Err(Error::WrongPoolEntry),
        }
    }

    /// The value of a `Long` entry.
    pub fn as_long(&self) -> (r: Result<i64, Error>)
        ensures
            r == long_of(self@),
    {
        match self {
            PoolEntry::Long { bytes } => Ok(*bytes),
            _ => Err(Error::WrongPoolEntry),
        }
    }

    /// The raw bits of a `Float` entry.
    pub fn as_float_bits(&self) -> (r: Result<u32, Error>)
        ensures
            r == (match self@ {
                EntryModel::Float { bytes } => Ok::<u32, Error>(bytes),
                _ => Err(Error::WrongPoolEntry),
            }),
    {
        match self {
            PoolEntry::Float { bytes } => Ok(*bytes),
            _ => Err(Error::WrongPoolEntry),
        }
    }

    /// The raw bits of a `Double` entry.
    pub fn as_double_bits(&self) -> (r: Result<u64, Error>)
        ensures
            r == (match self@ {
                EntryModel::Double { bytes } => Ok::<u64, Error>(bytes),
                _ => Err(Error::WrongPoolEntry),
            }),
    {
        match self {
            PoolEntry::Double { bytes } => Ok(*bytes),
            _ => Err(Error::WrongPoolEntry),
        }
    }

    /// The handle of a `MethodHandle` entry.
    pub fn as_method_handle(&self, pool: &PoolRead) -> (r: Result<Handle, Error>)
        ensures
            match method_handle_of(pool@, self@) {
                Ok(v) => r matches Ok(x) && x@ == v,
                Err(e) => r == Err::<Handle, Error>(e),
            },
    {
        match self {
            PoolEntry::MethodHandle { reference_kind, reference_index } => {
                let i = *reference_index;
                let handle = match *reference_kind {
                    1 => Handle::GetField(pool.get_field_ref(i)?),
                    2 => Handle::GetStatic(pool.get_field_ref(i)?),
                    3 => Handle::PutField(pool.get_field_ref(i)?),
                    4 => Handle::PutStatic(pool.get_field_ref(i)?),
                    5 => Handle::InvokeVirtual(pool.get_method_ref(i)?),
                    6 => {
                        let (method_ref, is_interface) = pool.get_method_ref_or_interface_method_ref(i)?;
                        Handle::InvokeStatic(method_ref, is_interface)
                    },
                    7 => {
                        let (method_ref, is_interface) = pool.get_method_ref_or_interface_method_ref(i)?;
                        Handle::InvokeSpecial(method_ref, is_interface)
                    },
                    8 => Handle::NewInvokeSpecial(pool.get_method_ref(i)?),
                    9 => Handle::InvokeInterface(pool.get_interface_method_ref(i)?),
                    _ => { return Err(Error::UnknownTag); },
                };
                Ok(handle)
            },
            _ => Err(Error::WrongPoolEntry),
        }
    }

    /// The method descriptor of a `MethodType` entry.
    pub fn as_method_type(&self, pool: &PoolRead) -> (r: Result<MethodDescriptor, Error>)
        ensures
            match method_type_of(pool@, self@) {
                Ok(v) => r matches Ok(x) && x@ == v,
                Err(e) => r == Err::<MethodDescriptor, Error>(e),
            },
    {
        match self {
            PoolEntry::MethodType { descriptor_index } => {
                let s = pool.get_utf8(*descriptor_index)?;
                Ok(MethodDescriptor::from_inner_unchecked(s))
            },
            _ => Err(Error::WrongPoolEntry),
        }
    }
}

impl PoolRead {
    /// The number of slots, including the empty slot at index zero.
    pub fn len(&self) -> (r: usize)
        ensures
            r == self@.len(),
    {
        self.inner.len()
    }

    /// The entry at `index`; fails with [`Error::MissingPoolEntry`] if there is none.
    pub fn get(&self, index: u16) -> (r: Result<&PoolEntry, Error>)
        ensures
            match pool_get(self@, index) {
                Ok(e) => r matches Ok(x) && x@ == e,
                Err(e) => r == Err::<&PoolEntry, Error>(e),
            },
    {
        let i = index as usize;
        if i < self.inner.len() {
            match &self.inner[i] {
                Some(entry) => Ok(entry),
                None => Err(Error::MissingPoolEntry),
            }
        } else {
            Err(Error::MissingPoolEntry)
        }
    }

    /// Returns `None` if `index` is zero, otherwise the result of `f` on it.
    pub fn get_optional<T, F: Fn(&PoolRead, u16) -> Result<T, Error>>(&self, index: u16, f: F) -> (r: Result<Option<T>, Error>)
        requires
            index != 0 ==> call_requires(f, (self, index)),
        ensures
            index == 0 ==> r matches Ok(None),
            index != 0 ==> match r {
                Ok(Some(x)) => call_ensures(f, (self, index), Ok::<T, Error>(x)),
                Ok(None) => false,
                Err(e) => call_ensures(f, (self, index), Err::<T, Error>(e)),
            },
    {
        if index == 0 {
            Ok(None)
        } else {
            match f(self, index) {
                Ok(x) => Ok(Some(x)),
                Err(e) => Err(e),
            }
        }
    }

    /// A copy of the string of the `Utf8` entry at `index`.
    pub fn get_utf8(&self, index: u16) -> (r: Result<JavaString, Error>)
        ensures
            match pool_utf8(self@, index) {
                Ok(v) => r matches Ok(x) && x@ == v,
                Err(e) => r == Err::<JavaString, Error>(e),
            },
    {
        let s = self.get(index)?.as_utf8()?;
        Ok(s.duplicate())
    }

    /// The string of the `Utf8` entry at `index`.
    pub fn get_utf8_ref(&self, index: u16) -> (r: Result<&JavaString, Error>)
        ensures
            match pool_utf8(self@, index) {
                Ok(v) => r matches Ok(x) && x@ == v,
                Err(e) => r == Err::<&JavaString, Error>(e),
            },
    {
        self.get(index)?.as_utf8()
    }

    /// The class name of the `Class` entry at `index`.
    pub fn get_class(&self, index: u16) -> (r: Result<ClassName, Error>)
        ensures
            match pool_class(self@, index) {
                Ok(v) => r matches Ok(x) && x@ == v,
                Err(e) => r == Err::<ClassName, Error>(e),
            },
    {
        self.get(index)?.as_class(self)
    }

    /// The package name of the `Package` entry at `index`.
    pub fn get_package(&self, index: u16) -> (r: Result<PackageName, Error>)
        ensures
            match pool_package(self@, index) {
                Ok(v) => r matches Ok(x) && x@ == v,
                Err(e) => r == Err::<PackageName, Error>(e),
            },
    {
        self.get(index)?.as_package(self)
    }

    /// The module name of the `Module` entry at `index`.
    pub fn get_module(&self, index: u16) -> (r: Result<ModuleName, Error>)
        ensures
            match pool_module(self@, index) {
                Ok(v) => r matches Ok(x) && x@ == v,
                Err(e) => r == Err::<ModuleName, Error>(e),
            },
    {
        self.get(index)?.as_module(self)
    }

    /// Copies of the name and descriptor of the `NameAndType` entry at `index`.
    pub fn get_name_and_type(&self, index: u16) -> (r: Result<(JavaString, JavaString), Error>)
        ensures
            match pool_name_and_type(self@, index) {
                Ok((n, d)) => r matches Ok((x, y)) && x@ == n && y@ == d,
                Err(e) => r == Err::<(JavaString, JavaString), Error>(e),
            },
    {
        let (a, b) = self.get_name_and_type_ref(index)?;
        Ok((a.duplicate(), b.duplicate()))
    }

    /// The name and descriptor of the `NameAndType` entry at `index`.
    pub fn get_name_and_type_ref(&self, index: u16) -> (r: Result<(&JavaString, &JavaString), Error>)
        ensures
            match pool_name_and_type(self@, index) {
                Ok((n, d)) => r matches Ok((x, y)) && x@ == n && y@ == d,
                Err(e) => r == Err::<(&JavaString, &JavaString), Error>(e),
            },
    {
        self.get(index)?.as_name_and_type(self)
    }

    /// The method named by a class index and a name-and-type index.
    fn make_method_ref(&self, class_index: u16, name_and_type_index: u16) -> (r: Result<MethodRef, Error>)
        ensures
            match ref_of(self@, class_index, name_and_type_index) {
                Ok(v) => r matches Ok(x) && x@ == v,
                Err(e) => r == Err::<MethodRef, Error>(e),
            },
    {
        let class = self.get_class(class_index)?;
        let (name, desc) = self.get_name_and_type(name_and_type_index)?;
        Ok(MethodRef {
            class,
            name: MethodName::from_inner_unchecked(name),
            desc: MethodDescriptor::from_inner_unchecked(desc),
        })
    }

    /// The field of the `FieldRef` entry at `index`.
    pub fn get_field_ref(&self, index: u16) -> (r: Result<FieldRef, Error>)
        ensures
            match pool_field_ref(self@, index) {
                Ok(v) => r matches Ok(x) && x@ == v,
                Err(e) => r == Err::<FieldRef, Error>(e),
            },
    {
        self.get(index)?.as_field_ref(self)
    }

    /// The method of the `MethodRef` entry at `index`.
    pub fn get_method_ref(&self, index: u16) -> (r: Result<MethodRef, Error>)
        ensures
            match pool_method_ref(self@, index) {
                Ok(v) => r matches Ok(x) && x@ == v,
                Err(e) => r == Err::<MethodRef, Error>(e),
            },
    {
        self.get(index)?.as_method_ref(self)
    }

    /// The method of the `InterfaceMethodRef` entry at `index`.
    pub fn get_interface_method_ref(&self, index: u16) -> (r: Result<MethodRef, Error>)
        ensures
            match pool_interface_method_ref(self@, index) {
                Ok(v) => r matches Ok(x) && x@ == v,
                Err(e) => r == Err::<MethodRef, Error>(e),
            },
    {
        self.get(index)?.as_interface_method_ref(self)
    }

    /// The method of the `MethodRef` (`false`) or `InterfaceMethodRef` (`true`) entry at `index`.
    pub fn get_method_ref_or_interface_method_ref(&self, index: u16) -> (r: Result<(MethodRef, bool), Error>)
        ensures
            match pool_method_or_interface_ref(self@, index) {
                Ok((v, i)) => r matches Ok((x, j)) && x@ == v && j == i,
                Err(e) => r == Err::<(MethodRef, bool), Error>(e),
            },
    {
        self.get(index)?.as_method_ref_or_interface_method_ref(self)
    }

    /// The value of the `Integer` entry at `index`.
    pub fn get_integer(&self, index: u16) -> (r: Result<i32, Error>)
        ensures
            r == pool_integer(self@, index),
    {
        self.get(index)?.as_integer()
    }

    /// The value of the `Integer` entry at `index`, truncated to a byte.
    pub fn get_integer_as_byte(&self, index: u16) -> (r: Result<i8, Error>)
        ensures
            match pool_integer(self@, index) {
                Ok(v) => r == Ok::<i8, Error>(v as i8),
                Err(e) => r == Err::<i8, Error>(e),
            },
    {
        let integer = self.get_integer(index)?;
        Ok(integer as i8)
    }

    /// The value of the `Integer` entry at `index`, truncated to a `char` (an `u16`).
    pub fn get_integer_as_char(&self, index: u16) -> (r: Result<u16, Error>)
        ensures
            match pool_integer(self@, index) {
                Ok(v) => r == Ok::<u16, Error>(v as u16),
                Err(e) => r == Err::<u16, Error>(e),
            },
    {
        let integer = self.get_integer(index)?;
        Ok(integer as u16)
    }

    /// The value of the `Integer` entry at `index`, truncated to a `short`.
    pub fn get_integer_as_short(&self, index: u16) -> (r: Result<i16, Error>)
        ensures
            match pool_integer(self@, index) {
                Ok(v) => r == Ok::<i16, Error>(v as i16),
                Err(e) => r == Err::<i16, Error>(e),
            },
    {
        let integer = self.get_integer(index)?;
        Ok(integer as i16)
    }

    /// Whether the value of the `Integer` entry at `index` is not zero.
    pub fn get_integer_as_boolean(&self, index: u16) -> (r: Result<bool, Error>)
        ensures
            match pool_integer(self@, index) {
                Ok(v) => r == Ok::<bool, Error>(v != 0),
                Err(e) => r == Err::<bool, Error>(e),
            },
    {
        Ok(self.get_integer(index)? != 0)
    }

    /// The IEEE 754 bits of the `Float` entry at `index`.
    pub fn get_float(&self, index: u16) -> (r: Result<u32, Error>)
        ensures
            r == pool_float(self@, index),
    {
        self.get(index)?.as_float_bits()
    }

    /// The IEEE 754 bits of the `Double` entry at `index`.
    pub fn get_double(&self, index: u16) -> (r: Result<u64, Error>)
        ensures
            r == pool_double(self@, index),
    {
        self.get(index)?.as_double_bits()
    }

    /// The value of the `Long` entry at `index`.
    pub fn get_long(&self, index: u16) -> (r: Result<i64, Error>)
        ensures
            r == pool_long(self@, index),
    {
        self.get(index)?.as_long()
    }

    /// The handle of the `MethodHandle` entry at `index`.
    pub fn get_method_handle(&self, index: u16) -> (r: Result<Handle, Error>)
        ensures
            match pool_method_handle(self@, index) {
                Ok(v) => r matches Ok(x) && x@ == v,
                Err(e) => r == Err::<Handle, Error>(e),
            },
    {
        self.get(index)?.as_method_handle(self)
    }

    /// The method descriptor of the `MethodType` entry at `index`.
    pub fn get_method_type(&self, index: u16) -> (r: Result<MethodDescriptor, Error>)
        ensures
            match pool_get(self@, index) {
                Ok(e) => match method_type_of(self@, e) {
                    Ok(v) => r matches Ok(x) && x@ == v,
                    Err(e) => r == Err::<MethodDescriptor, Error>(e),
                },
                Err(e) => r == Err::<MethodDescriptor, Error>(e),
            },
    {
        self.get(index)?.as_method_type(self)
    }
}

/// A `MethodHandle` entry is read by its reference kind, as the JVMS numbers
/// them: `1` getField, `2` getStatic, `3` putField, `4` putStatic (on a field
/// reference), `5` invokeVirtual and `8` newInvokeSpecial (on a method
/// reference), `6` invokeStatic and `7` invokeSpecial (on a method or interface
/// method reference), `9` invokeInterface (on an interface method reference).
/// Any other kind is refused.
pub proof fn lemma_method_handle_kinds(p: Seq<Option<EntryModel>>, k: u8, i: u16)
    ensures
        ({
            let r = method_handle_of(p, EntryModel::MethodHandle { reference_kind: k, reference_index: i });
            &&& 1 <= k <= 4 ==> (r is Ok <==> pool_field_ref(p, i) is Ok)
            &&& (k == 5 || k == 8) ==> (r is Ok <==> pool_method_ref(p, i) is Ok)
            &&& (k == 6 || k == 7) ==> (r is Ok <==> pool_method_or_interface_ref(p, i) is Ok)
            &&& k == 9 ==> (r is Ok <==> pool_interface_method_ref(p, i) is Ok)
            &&& (k == 0 || k > 9) ==> r is Err
            &&& k == 1 ==> (r matches Ok(h) ==> h is GetField)
            &&& k == 2 ==> (r matches Ok(h) ==> h is GetStatic)
            &&& k == 3 ==> (r matches Ok(h) ==> h is PutField)
            &&& k == 4 ==> (r matches Ok(h) ==> h is PutStatic)
            &&& k == 5 ==> (r matches Ok(h) ==> h is InvokeVirtual)
            &&& k == 6 ==> (r matches Ok(h) ==> h is InvokeStatic)
            &&& k == 7 ==> (r matches Ok(h) ==> h is InvokeSpecial)
            &&& k == 8 ==> (r matches Ok(h) ==> h is NewInvokeSpecial)
            &&& k == 9 ==> (r matches Ok(h) ==> h is InvokeInterface)
        }),
{
}

/// Each kind of constant pool entry is read from its JVMS tag: `Utf8` 1, `Integer` 3, `Float` 4, `Long` 5, `Double` 6, `Class` 7, `String` 8, `FieldRef` 9, `MethodRef` 10, `InterfaceMethodRef` 11, `NameAndType` 12, `MethodHandle` 15, `MethodType` 16, `Dynamic` 17, `InvokeDynamic` 18, `Module` 19, `Package` 20.
pub proof fn lemma_entry_tags(b: Seq<u8>, pos: int)
    requires
        0 <= pos < b.len(),
    ensures
        parse_entry(b, pos) matches Ok((e, _)) ==> {
            &&& e is Utf8 <==> b[pos] == 1
            &&& e is Integer <==> b[pos] == 3
            &&& e is Float <==> b[pos] == 4
            &&& e is Long <==> b[pos] == 5
            &&& e is Double <==> b[pos] == 6
            &&& e is Class <==> b[pos] == 7
            &&& e is String <==> b[pos] == 8
            &&& e is FieldRef <==> b[pos] == 9
            &&& e is MethodRef <==> b[pos] == 10
            &&& e is InterfaceMethodRef <==> b[pos] == 11
            &&& e is NameAndType <==> b[pos] == 12
            &&& e is MethodHandle <==> b[pos] == 15
            &&& e is MethodType <==> b[pos] == 16
            &&& e is Dynamic <==> b[pos] == 17
            &&& e is InvokeDynamic <==> b[pos] == 18
            &&& e is Module <==> b[pos] == 19
            &&& e is Package <==> b[pos] == 20
        },
{
    reveal(parse_entry);
}

} // verus!


