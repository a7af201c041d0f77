//! Reading the parts of class files.
use vstd::prelude::*;
use crate::bytes::{ClassReader, be_u16, be_u32};
use crate::class_reader::module::{read_counted, class_name_item, index_then, read_class_names};
use crate::class_reader::pool::{EntryModel, PoolRead, read_pool, pool_class};
use crate::error::Error;
use crate::tree::class::{ClassAccess, ClassName, class_access_of};
use crate::tree::version::{Version, version_lt};

pub mod pool;
pub mod labels;
pub mod code;
pub mod frames;
pub mod module;
pub mod tables;
pub mod class;
pub mod annotation;
pub mod bootstrap;
pub mod instructions;
pub mod stack_map;
pub mod code_attribute;
pub mod method;
pub mod field;

verus! {

/// Skipping `n` attributes from `pos` on: each has a two-byte name index and
/// a four-byte length, then that many bytes. Gives the position after them.
pub open spec fn skip_attributes_from(b: Seq<u8>, pos: int, n: int) -> Result<int, Error>
    decreases n,
{
    if n <= 0 {
        Ok(pos)
    } else if pos + 6 > b.len() {
        Err(Error::UnexpectedEnd)
    } else if pos + 6 + be_u32(b, pos + 2) > usize::MAX {
        Err(Error::InvalidSeek)
    } else {
        skip_attributes_from(b, pos + 6 + be_u32(b, pos + 2), n - 1)
    }
}

/// Skipping the attributes at `pos`: a two-byte count, then the attributes.
pub open spec fn skip_attributes_at(b: Seq<u8>, pos: int) -> Result<int, Error> {
    if pos + 2 > b.len() {
        Err(Error::UnexpectedEnd)
    } else {
        skip_attributes_from(b, pos + 2, be_u16(b, pos) as int)
    }
}

/// Skips the `attributes_count` and `attributes` items of a structure.
///
/// On success the position is after the attributes (which the data may not
/// hold in full: only a later read finds that out).
pub fn skip_attributes(reader: &mut ClassReader) -> (r: Result<(), Error>)
    ensures
        final(reader).data() == old(reader).data(),
        match skip_attributes_at(old(reader).data(), old(reader).position() as int) {
            Ok(end) => r is Ok && final(reader).position() == end,
            Err(e) => r == Err::<(), Error>(e),
        },
{
    let ghost b = reader.data();
    let attributes_count = reader.read_u16()?;
    let mut i: u16 = 0;
    while i < attributes_count
        invariant
            reader.data() == b,
            b == old(reader).data(),
            old(reader).position() + 2 <= b.len(),
            attributes_count == be_u16(b, old(reader).position() as int),
            i <= attributes_count,
            skip_attributes_at(b, old(reader).position() as int)
                == skip_attributes_from(b, reader.position() as int, attributes_count - i),
        decreases attributes_count - i,
    {
        let _attribute_name_index = reader.read_u16()?;
        let attribute_length = match reader.read_u32() {
            Ok(l) => l,
            Err(e) => {
                return Err(e);
            },
        };
        reader.skip(attribute_length as i64)?;
        i = i + 1;
    }
    Ok(())
}


/// The first four bytes of every class file.
pub const MAGIC: u32 = 0xCAFE_BABE;

/// The model of the start of a class file.
pub ghost struct HeaderModel {
    pub version: Version,
    pub pool: Seq<Option<EntryModel>>,
    pub access: ClassAccess,
    pub this_class: Seq<u32>,
    pub super_class: Option<Seq<u32>>,
    pub interfaces: Seq<Seq<u32>>,
}

/// The class name of the `Class` entry at `i`, or `None` for the index zero.
pub open spec fn pool_optional_class(p: Seq<Option<EntryModel>>, i: u16) -> Result<Option<Seq<u32>>, Error> {
    if i == 0 {
        Ok(None)
    } else {
        match pool_class(p, i) {
            Ok(s) => Ok(Some(s)),
            Err(e) => Err(e),
        }
    }
}

/// Reading the start of a class file at `pos`: the magic number, the version,
/// the constant pool, the access flags, the class, its super class and its interfaces.
pub open spec fn read_header_at(b: Seq<u8>, pos: int) -> Result<(HeaderModel, int), Error> {
    if pos + 4 > b.len() {
        Err(Error::UnexpectedEnd)
    } else if be_u32(b, pos) != MAGIC {
        Err(Error::WrongMagic)
    } else if pos + 8 > b.len() {
        Err(Error::UnexpectedEnd)
    } else {
        let version = Version { major: be_u16(b, pos + 6), minor: be_u16(b, pos + 4) };
        if version_lt(Version { major: 67, minor: 0 }, version) {
            Err(Error::UnsupportedVersion)
        } else {
            match read_pool(b, pos + 8) {
                Ok((p, p1)) => if p1 + 2 > b.len() {
                    Err(Error::UnexpectedEnd)
                } else {
                    let access = class_access_of(be_u16(b, p1));
                    match index_then(b, p1 + 2, pool_class(p, be_u16(b, p1 + 2))) {
                        Ok((this_class, p2)) => match index_then(b, p2, pool_optional_class(p, be_u16(b, p2))) {
                            Ok((super_class, p3)) => match read_counted(b, p3, class_name_item(b, p)) {
                                Ok((interfaces, end)) =>
                                    Ok((HeaderModel { version, pool: p, access, this_class, super_class, interfaces }, end)),
                                Err(e) => Err(e),
                            },
                            Err(e) => Err(e),
                        },
                        Err(e) => Err(e),
                    }
                },
                Err(e) => Err(e),
            }
        }
    }
}

/// The start of a class file, as read.
#[derive(Debug)]
pub struct ClassHeader {
    pub version: Version,
    pub pool: PoolRead,
    pub access: ClassAccess,
    pub this_class: ClassName,
    pub super_class: Option<ClassName>,
    pub interfaces: Vec<ClassName>,
}

/// The model of an optional class name.
pub open spec fn opt_class_view(c: Option<ClassName>) -> Option<Seq<u32>> {
    match c {
        Some(x) => Some(x@),
        None => None,
    }
}

impl View for ClassHeader {
    type V = HeaderModel;

    open spec fn view(&self) -> HeaderModel {
        HeaderModel {
            version: self.version,
            pool: self.pool@,
            access: self.access,
            this_class: self.this_class@,
            super_class: opt_class_view(self.super_class),
            interfaces: self.interfaces@.map_values(|c: ClassName| c@),
        }
    }
}

/// Reads the start of a class file: the magic number, the version (which must
/// be `67.0` at most), the constant pool, the access flags, the class, its
/// super class and its interfaces.
pub fn read_class_header(reader: &mut ClassReader) -> (r: Result<ClassHeader, Error>)
    ensures
        final(reader).data() == old(reader).data(),
        match read_header_at(old(reader).data(), old(reader).position() as int) {
            Ok((h, end)) => r matches Ok(x) && x@ == h && final(reader).position() == end,
            Err(e) => r is Err && r == Err::<ClassHeader, Error>(e),
        },
{
    let magic = reader.read_u32()?;
    if magic != MAGIC {
        return Err(Error::WrongMagic);
    }
    let minor = reader.read_u16()?;
    let major = reader.read_u16()?;
    let version = Version::new(major, minor);
    if major > 67 || (major == 67 && minor > 0) {
        return Err(Error::UnsupportedVersion);
    }
    let pool = PoolRead::read(reader)?;
    let access = ClassAccess::from(reader.read_u16()?);
    let this_class = pool.get_class(reader.read_u16()?)?;
    let super_index = reader.read_u16()?;
    let super_class = if super_index == 0 {
        None
    } else {
        Some(pool.get_class(super_index)?)
    };
    let interfaces = read_class_names(reader, &pool)?;
    Ok(ClassHeader { version, pool, access, this_class, super_class, interfaces })
}

/// Skipping `n` fields or methods from `pos` on: each has six bytes of access
/// flags, name and descriptor, then attributes.
pub open spec fn skip_members_from(b: Seq<u8>, pos: int, n: int) -> Result<int, Error>
    decreases n,
{
    if n <= 0 {
        Ok(pos)
    } else if pos + 6 > usize::MAX {
        Err(Error::InvalidSeek)
    } else {
        match skip_attributes_at(b, pos + 6) {
            Ok(p) => skip_members_from(b, p, n - 1),
            Err(e) => Err(e),
        }
    }
}

/// Skipping the fields or the methods at `pos`: a two-byte count, then the members.
pub open spec fn skip_members_at(b: Seq<u8>, pos: int) -> Result<int, Error> {
    if pos + 2 > b.len() {
        Err(Error::UnexpectedEnd)
    } else {
        skip_members_from(b, pos + 2, be_u16(b, pos) as int)
    }
}

/// Skips the fields, or the methods, of a class file.
pub fn skip_members(reader: &mut ClassReader) -> (r: Result<(), Error>)
    ensures
        final(reader).data() == old(reader).data(),
        match skip_members_at(old(reader).data(), old(reader).position() as int) {
            Ok(end) => r is Ok && final(reader).position() == end,
            Err(e) => r == Err::<(), Error>(e),
        },
{
    let ghost b = reader.data();
    let count = reader.read_u16()?;
    let mut i: u16 = 0;
    while i < count
        invariant
            reader.data() == b,
            b == old(reader).data(),
            old(reader).position() + 2 <= b.len(),
            count == be_u16(b, old(reader).position() as int),
            i <= count,
            skip_members_at(b, old(reader).position() as int) == skip_members_from(b, reader.position() as int, count - i),
        decreases count - i,
    {
        match reader.skip(2 + 2 + 2) {
            Ok(()) => {},
            Err(e) => { return Err(e); },
        }
        match skip_attributes(reader) {
            Ok(()) => {},
            Err(e) => { return Err(e); },
        }
        i = i + 1;
    }
    Ok(())
}

/// A class file starts with the magic number `0xCAFEBABE`, then the minor
/// version (two bytes), then the major version (two bytes); versions after
/// 67.0 are refused.
pub proof fn lemma_header_start(b: Seq<u8>, pos: int)
    requires
        0 <= pos,
        pos + 8 <= b.len(),
    ensures
        !(b[pos] == 0xCA && b[pos + 1] == 0xFE && b[pos + 2] == 0xBA && b[pos + 3] == 0xBE)
            ==> read_header_at(b, pos) == Err::<(HeaderModel, int), Error>(Error::WrongMagic),
        read_header_at(b, pos) matches Ok((h, _)) ==> {
            &&& h.version.minor == (b[pos + 4] * 256 + b[pos + 5]) as u16
            &&& h.version.major == (b[pos + 6] * 256 + b[pos + 7]) as u16
            &&& h.version.major <= 67
        },
{
    assert(be_u16(b, pos + 4) == b[pos + 4] * 256 + b[pos + 5]);
    assert(be_u16(b, pos + 6) == b[pos + 6] * 256 + b[pos + 7]);
    assert(be_u32(b, pos) == b[pos] * 0x1000000 + b[pos + 1] * 0x10000 + b[pos + 2] * 0x100 + b[pos + 3]);
}

} // verus!

