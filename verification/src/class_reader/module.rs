//! Reading the `Module` attribute.
use vstd::prelude::*;
use crate::bytes::{ClassReader, be_u16};
use crate::class_reader::pool::{EntryModel, PoolRead, pool_utf8, pool_class, pool_module, pool_package};
use crate::error::Error;
use crate::jstring::JavaString;
use crate::tree::class::ClassName;
use crate::tree::module::{Module, ModuleName, ModuleRequires, ModuleExports, ModuleOpens, ModuleProvides,
    ModuleModel, RequiresModel, ExportsModel, OpensModel, ProvidesModel, module_flags_of, module_requires_flags_of,
    module_exports_flags_of, module_opens_flags_of, opt_str_view, module_names_view, class_names_view,
    ModuleFlags, ModuleRequiresFlags, ModuleExportsFlags, ModuleOpensFlags};

verus! {

/// Reading `n` items from `pos` on, one after the other, each with `item`.
pub open spec fn read_list<T>(pos: int, n: int, item: spec_fn(int) -> Result<(T, int), Error>) -> Result<(Seq<T>, int), Error>
    decreases n,
{
    if n <= 0 {
        Ok((Seq::empty(), pos))
    } else {
        match item(pos) {
            Ok((x, p2)) => match read_list(p2, n - 1, item) {
                Ok((xs, end)) => Ok((seq![x] + xs, end)),
                Err(e) => Err(e),
            },
            Err(e) => Err(e),
        }
    }
}

/// Reading a two-byte count at `pos`, then that many items.
pub open spec fn read_counted<T>(b: Seq<u8>, pos: int, item: spec_fn(int) -> Result<(T, int), Error>) -> Result<(Seq<T>, int), Error> {
    if pos + 2 > b.len() {
        Err(Error::UnexpectedEnd)
    } else {
        read_list(pos + 2, be_u16(b, pos) as int, item)
    }
}

/// Items read first, then the outcome of reading the rest.
pub open spec fn prepend_list<T>(done: Seq<T>, r: Result<(Seq<T>, int), Error>) -> Result<(Seq<T>, int), Error> {
    match r {
        Ok((xs, end)) => Ok((done + xs, end)),
        Err(e) => Err(e),
    }
}

/// Reading a pool index at `pos`, and looking it up with `lookup`.
pub open spec fn index_then<T>(b: Seq<u8>, pos: int, lookup: Result<T, Error>) -> Result<(T, int), Error> {
    if pos + 2 > b.len() {
        Err(Error::UnexpectedEnd)
    } else {
        match lookup {
            Ok(x) => Ok((x, pos + 2)),
            Err(e) => Err(e),
        }
    }
}

/// The string of the `Utf8` entry at `i`, or `None` for the index zero.
pub open spec fn pool_optional_utf8(p: Seq<Option<EntryModel>>, i: u16) -> Result<Option<Seq<u32>>, Error> {
    if i == 0 {
        Ok(None)
    } else {
        match pool_utf8(p, i) {
            Ok(s) => Ok(Some(s)),
            Err(e) => Err(e),
        }
    }
}

/// Reading the index of a `Module` entry.
pub open spec fn module_name_item(b: Seq<u8>, p: Seq<Option<EntryModel>>) -> spec_fn(int) -> Result<(Seq<u32>, int), Error> {
    |pos: int| index_then(b, pos, pool_module(p, be_u16(b, pos)))
}

/// Reading the index of a `Class` entry.
pub open spec fn class_name_item(b: Seq<u8>, p: Seq<Option<EntryModel>>) -> spec_fn(int) -> Result<(Seq<u32>, int), Error> {
    |pos: int| index_then(b, pos, pool_class(p, be_u16(b, pos)))
}

/// Reading a `requires` entry.
pub open spec fn requires_item(b: Seq<u8>, p: Seq<Option<EntryModel>>) -> spec_fn(int) -> Result<(RequiresModel, int), Error> {
    |pos: int| match index_then(b, pos, pool_module(p, be_u16(b, pos))) {
        Ok((name, p2)) => if p2 + 2 > b.len() {
            Err(Error::UnexpectedEnd)
        } else {
            match index_then(b, p2 + 2, pool_optional_utf8(p, be_u16(b, p2 + 2))) {
                Ok((version, end)) => Ok((RequiresModel { name, flags: module_requires_flags_of(be_u16(b, p2)), version }, end)),
                Err(e) => Err(e),
            }
        },
        Err(e) => Err(e),
    }
}

/// Reading an `exports` entry.
pub open spec fn exports_item(b: Seq<u8>, p: Seq<Option<EntryModel>>) -> spec_fn(int) -> Result<(ExportsModel, int), Error> {
    |pos: int| match index_then(b, pos, pool_package(p, be_u16(b, pos))) {
        Ok((name, p2)) => if p2 + 2 > b.len() {
            Err(Error::UnexpectedEnd)
        } else {
            match read_counted(b, p2 + 2, module_name_item(b, p)) {
                Ok((to, end)) => Ok((ExportsModel { name, flags: module_exports_flags_of(be_u16(b, p2)), to }, end)),
                Err(e) => Err(e),
            }
        },
        Err(e) => Err(e),
    }
}

/// Reading an `opens` entry.
pub open spec fn opens_item(b: Seq<u8>, p: Seq<Option<EntryModel>>) -> spec_fn(int) -> Result<(OpensModel, int), Error> {
    |pos: int| match index_then(b, pos, pool_package(p, be_u16(b, pos))) {
        Ok((name, p2)) => if p2 + 2 > b.len() {
            Err(Error::UnexpectedEnd)
        } else {
            match read_counted(b, p2 + 2, module_name_item(b, p)) {
                Ok((to, end)) => Ok((OpensModel { name, flags: module_opens_flags_of(be_u16(b, p2)), to }, end)),
                Err(e) => Err(e),
            }
        },
        Err(e) => Err(e),
    }
}

/// Reading a `provides` entry.
pub open spec fn provides_item(b: Seq<u8>, p: Seq<Option<EntryModel>>) -> spec_fn(int) -> Result<(ProvidesModel, int), Error> {
    |pos: int| match index_then(b, pos, pool_class(p, be_u16(b, pos))) {
        Ok((name, p2)) => match read_counted(b, p2, class_name_item(b, p)) {
            Ok((with, end)) => Ok((ProvidesModel { name, with }, end)),
            Err(e) => Err(e),
        },
        Err(e) => Err(e),
    }
}

/// Reading a `Module` attribute at `pos`, with the pool `p`.
pub open spec fn read_module_at(b: Seq<u8>, pos: int, p: Seq<Option<EntryModel>>) -> Result<(ModuleModel, int), Error> {
    match index_then(b, pos, pool_module(p, be_u16(b, pos))) {
        Ok((name, p1)) => if p1 + 2 > b.len() {
            Err(Error::UnexpectedEnd)
        } else {
            let flags = module_flags_of(be_u16(b, p1));
            match index_then(b, p1 + 2, pool_optional_utf8(p, be_u16(b, p1 + 2))) {
                Ok((version, p2)) => match read_counted(b, p2, requires_item(b, p)) {
                    Ok((reqs, p3)) => match read_counted(b, p3, exports_item(b, p)) {
                        Ok((exports, p4)) => match read_counted(b, p4, opens_item(b, p)) {
                            Ok((opens, p5)) => match read_counted(b, p5, class_name_item(b, p)) {
                                Ok((uses, p6)) => match read_counted(b, p6, provides_item(b, p)) {
                                    Ok((provides, end)) => Ok((ModuleModel { name, flags, version, requires: reqs, exports, opens, uses, provides }, end)),
                                    Err(e) => Err(e),
                                },
                                Err(e) => Err(e),
                            },
                            Err(e) => Err(e),
                        },
                        Err(e) => Err(e),
                    },
                    Err(e) => Err(e),
                },
                Err(e) => Err(e),
            }
        },
        Err(e) => Err(e),
    }
}

/// Reads a pool index and the `Utf8` entry there, `None` for the index zero.
fn read_optional_utf8(reader: &mut ClassReader, pool: &PoolRead) -> (r: Result<Option<JavaString>, Error>)
    ensures
        final(reader).data() == old(reader).data(),
        match index_then(old(reader).data(), old(reader).position() as int,
            pool_optional_utf8(pool@, be_u16(old(reader).data(), old(reader).position() as int))) {
            Ok((v, end)) => r matches Ok(x) && opt_str_view(x) == v && final(reader).position() == end,
            Err(e) => r is Err && r == Err::<Option<JavaString>, Error>(e),
        },
{
    let index = reader.read_u16()?;
    if index == 0 {
        Ok(None)
    } else {
        let s = pool.get_utf8(index)?;
        Ok(Some(s))
    }
}

/// Reads a two-byte count, then that many indices of `Module` entries.
fn read_module_names(reader: &mut ClassReader, pool: &PoolRead) -> (r: Result<Vec<ModuleName>, Error>)
    ensures
        final(reader).data() == old(reader).data(),
        match read_counted(old(reader).data(), old(reader).position() as int, module_name_item(old(reader).data(), pool@)) {
            Ok((v, end)) => r matches Ok(x) && module_names_view(x@) == v && final(reader).position() == end,
            Err(e) => r is Err && r == Err::<Vec<ModuleName>, Error>(e),
        },
{
    let ghost b = reader.data();
    let ghost item = module_name_item(b, pool@);
    let n = reader.read_u16()?;
    let ghost whole = read_list(reader.position() as int, n as int, item);
    let mut v: Vec<ModuleName> = Vec::new();
    let mut i: u16 = 0;
    assert(whole == prepend_list(module_names_view(v@), whole)) by {
        if let Ok((xs, end)) = whole {
            assert(module_names_view(v@) + xs =~= xs);
        }
    }
    while i < n
        invariant
            reader.data() == b,
            b == old(reader).data(),
            item == module_name_item(b, pool@),
            i <= n,
            whole == read_counted(old(reader).data(), old(reader).position() as int, module_name_item(old(reader).data(), pool@)),
            whole == prepend_list(module_names_view(v@), read_list(reader.position() as int, n - i, item)),
        decreases n - i,
    {
        let ghost pos = reader.position() as int;
        let index = match reader.read_u16() {
            Ok(x) => x,
            Err(e) => { return Err(e); },
        };
        let name = match pool.get_module(index) {
            Ok(x) => x,
            Err(e) => { return Err(e); },
        };
        let ghost before = module_names_view(v@);
        let ghost nv = name@;
        v.push(name);
        proof {
            assert(module_names_view(v@) =~= before.push(nv));
            if let Ok((xs, end)) = read_list(pos + 2, n - i - 1, item) {
                assert(before + (seq![nv] + xs) =~= module_names_view(v@) + xs);
            }
        }
        i = i + 1;
    }
    proof {
        assert(module_names_view(v@) + Seq::<Seq<u32>>::empty() =~= module_names_view(v@));
    }
    Ok(v)
}

/// Reads a two-byte count, then that many indices of `Class` entries.
pub fn read_class_names(reader: &mut ClassReader, pool: &PoolRead) -> (r: Result<Vec<ClassName>, Error>)
    ensures
        final(reader).data() == old(reader).data(),
        match read_counted(old(reader).data(), old(reader).position() as int, class_name_item(old(reader).data(), pool@)) {
            Ok((v, end)) => r matches Ok(x) && class_names_view(x@) == v && final(reader).position() == end,
            Err(e) => r is Err && r == Err::<Vec<ClassName>, Error>(e),
        },
{
    let ghost b = reader.data();
    let ghost item = class_name_item(b, pool@);
    let n = reader.read_u16()?;
    let ghost whole = read_list(reader.position() as int, n as int, item);
    let mut v: Vec<ClassName> = Vec::new();
    let mut i: u16 = 0;
    assert(whole == prepend_list(class_names_view(v@), whole)) by {
        if let Ok((xs, end)) = whole {
            assert(class_names_view(v@) + xs =~= xs);
        }
    }
    while i < n
        invariant
            reader.data() == b,
            b == old(reader).data(),
            item == class_name_item(b, pool@),
            i <= n,
            whole == read_counted(old(reader).data(), old(reader).position() as int, class_name_item(old(reader).data(), pool@)),
            whole == prepend_list(class_names_view(v@), read_list(reader.position() as int, n - i, item)),
        decreases n - i,
    {
        let ghost pos = reader.position() as int;
        let index = match reader.read_u16() {
            Ok(x) => x,
            Err(e) => { return Err(e); },
        };
        let name = match pool.get_class(index) {
            Ok(x) => x,
            Err(e) => { return Err(e); },
        };
        let ghost before = class_names_view(v@);
        let ghost nv = name@;
        v.push(name);
        proof {
            assert(class_names_view(v@) =~= before.push(nv));
            if let Ok((xs, end)) = read_list(pos + 2, n - i - 1, item) {
                assert(before + (seq![nv] + xs) =~= class_names_view(v@) + xs);
            }
        }
        i = i + 1;
    }
    proof {
        assert(class_names_view(v@) + Seq::<Seq<u32>>::empty() =~= class_names_view(v@));
    }
    Ok(v)
}


/// The models of `requires` entries.
pub open spec fn requires_view(v: Seq<ModuleRequires>) -> Seq<RequiresModel> {
    v.map_values(|x: ModuleRequires| x@)
}

/// Reads a two-byte count, then that many `requires` entries.
fn read_requires_vec(reader: &mut ClassReader, pool: &PoolRead) -> (r: Result<Vec<ModuleRequires>, Error>)
    ensures
        final(reader).data() == old(reader).data(),
        match read_counted(old(reader).data(), old(reader).position() as int, requires_item(old(reader).data(), pool@)) {
            Ok((v, end)) => r matches Ok(x) && requires_view(x@) == v && final(reader).position() == end,
            Err(e) => r is Err && r == Err::<Vec<ModuleRequires>, Error>(e),
        },
{
    let ghost b = reader.data();
    let ghost item = requires_item(b, pool@);
    let n = reader.read_u16()?;
    let ghost whole = read_list(reader.position() as int, n as int, item);
    let mut v: Vec<ModuleRequires> = Vec::new();
    let mut i: u16 = 0;
    assert(whole == prepend_list(requires_view(v@), whole)) by {
        if let Ok((xs, end)) = whole {
            assert(requires_view(v@) + xs =~= xs);
        }
    }
    while i < n
        invariant
            reader.data() == b,
            b == old(reader).data(),
            item == requires_item(b, pool@),
            i <= n,
            whole == read_counted(old(reader).data(), old(reader).position() as int, requires_item(old(reader).data(), pool@)),
            whole == prepend_list(requires_view(v@), read_list(reader.position() as int, n - i, item)),
        decreases n - i,
    {
        let ghost pos = reader.position() as int;
        let index = match reader.read_u16() {
            Ok(x) => x,
            Err(e) => { return Err(e); },
        };
        let name = match pool.get_module(index) {
            Ok(x) => x,
            Err(e) => { return Err(e); },
        };
        let flags = match reader.read_u16() {
            Ok(x) => ModuleRequiresFlags::from(x),
            Err(e) => { return Err(e); },
        };
        let version = match read_optional_utf8(reader, pool) {
            Ok(x) => x,
            Err(e) => { return Err(e); },
        };
        let entry = ModuleRequires { name, flags, version };
        let ghost before = requires_view(v@);
        let ghost nv = entry@;
        let ghost p2 = reader.position() as int;
        assert(item(pos) == Ok::<(RequiresModel, int), Error>((nv, p2)));
        v.push(entry);
        proof {
            assert(requires_view(v@) =~= before.push(nv));
            if let Ok((xs, end)) = read_list(p2, n - i - 1, item) {
                assert(before + (seq![nv] + xs) =~= requires_view(v@) + xs);
            }
        }
        i = i + 1;
    }
    proof {
        assert(requires_view(v@) + Seq::<RequiresModel>::empty() =~= requires_view(v@));
    }
    Ok(v)
}

/// The models of `exports` entries.
pub open spec fn exports_view(v: Seq<ModuleExports>) -> Seq<ExportsModel> {
    v.map_values(|x: ModuleExports| x@)
}

/// Reads a two-byte count, then that many `exports` entries.
fn read_exports_vec(reader: &mut ClassReader, pool: &PoolRead) -> (r: Result<Vec<ModuleExports>, Error>)
    ensures
        final(reader).data() == old(reader).data(),
        match read_counted(old(reader).data(), old(reader).position() as int, exports_item(old(reader).data(), pool@)) {
            Ok((v, end)) => r matches Ok(x) && exports_view(x@) == v && final(reader).position() == end,
            Err(e) => r is Err && r == Err::<Vec<ModuleExports>, Error>(e),
        },
{
    let ghost b = reader.data();
    let ghost item = exports_item(b, pool@);
    let n = reader.read_u16()?;
    let ghost whole = read_list(reader.position() as int, n as int, item);
    let mut v: Vec<ModuleExports> = Vec::new();
    let mut i: u16 = 0;
    assert(whole == prepend_list(exports_view(v@), whole)) by {
        if let Ok((xs, end)) = whole {
            assert(exports_view(v@) + xs =~= xs);
        }
    }
    while i < n
        invariant
            reader.data() == b,
            b == old(reader).data(),
            item == exports_item(b, pool@),
            i <= n,
            whole == read_counted(old(reader).data(), old(reader).position() as int, exports_item(old(reader).data(), pool@)),
            whole == prepend_list(exports_view(v@), read_list(reader.position() as int, n - i, item)),
        decreases n - i,
    {
        let ghost pos = reader.position() as int;
        let index = match reader.read_u16() {
            Ok(x) => x,
            Err(e) => { return Err(e); },
        };
        let name = match pool.get_package(index) {
            Ok(x) => x,
            Err(e) => { return Err(e); },
        };
        let flags = match reader.read_u16() {
            Ok(x) => ModuleExportsFlags::from(x),
            Err(e) => { return Err(e); },
        };
        let exports_to = match read_module_names(reader, pool) {
            Ok(x) => x,
            Err(e) => { return Err(e); },
        };
        let entry = ModuleExports { name, flags, exports_to };
        let ghost before = exports_view(v@);
        let ghost nv = entry@;
        let ghost p2 = reader.position() as int;
        assert(item(pos) == Ok::<(ExportsModel, int), Error>((nv, p2)));
        v.push(entry);
        proof {
            assert(exports_view(v@) =~= before.push(nv));
            if let Ok((xs, end)) = read_list(p2, n - i - 1, item) {
                assert(before + (seq![nv] + xs) =~= exports_view(v@) + xs);
            }
        }
        i = i + 1;
    }
    proof {
        assert(exports_view(v@) + Seq::<ExportsModel>::empty() =~= exports_view(v@));
    }
    Ok(v)
}

/// The models of `opens` entries.
pub open spec fn opens_view(v: Seq<ModuleOpens>) -> Seq<OpensModel> {
    v.map_values(|x: ModuleOpens| x@)
}

/// Reads a two-byte count, then that many `opens` entries.
fn read_opens_vec(reader: &mut ClassReader, pool: &PoolRead) -> (r: Result<Vec<ModuleOpens>, Error>)
    ensures
        final(reader).data() == old(reader).data(),
        match read_counted(old(reader).data(), old(reader).position() as int, opens_item(old(reader).data(), pool@)) {
            Ok((v, end)) => r matches Ok(x) && opens_view(x@) == v && final(reader).position() == end,
            Err(e) => r is Err && r == Err::<Vec<ModuleOpens>, Error>(e),
        },
{
    let ghost b = reader.data();
    let ghost item = opens_item(b, pool@);
    let n = reader.read_u16()?;
    let ghost whole = read_list(reader.position() as int, n as int, item);
    let mut v: Vec<ModuleOpens> = Vec::new();
    let mut i: u16 = 0;
    assert(whole == prepend_list(opens_view(v@), whole)) by {
        if let Ok((xs, end)) = whole {
            assert(opens_view(v@) + xs =~= xs);
        }
    }
    while i < n
        invariant
            reader.data() == b,
            b == old(reader).data(),
            item == opens_item(b, pool@),
            i <= n,
            whole == read_counted(old(reader).data(), old(reader).position() as int, opens_item(old(reader).data(), pool@)),
            whole == prepend_list(opens_view(v@), read_list(reader.position() as int, n - i, item)),
        decreases n - i,
    {
        let ghost pos = reader.position() as int;
        let index = match reader.read_u16() {
            Ok(x) => x,
            Err(e) => { return Err(e); },
        };
        let name = match pool.get_package(index) {
            Ok(x) => x,
            Err(e) => { return Err(e); },
        };
        let flags = match reader.read_u16() {
            Ok(x) => ModuleOpensFlags::from(x),
            Err(e) => { return Err(e); },
        };
        let opens_to = match read_module_names(reader, pool) {
            Ok(x) => x,
            Err(e) => { return Err(e); },
        };
        let entry = ModuleOpens { name, flags, opens_to };
        let ghost before = opens_view(v@);
        let ghost nv = entry@;
        let ghost p2 = reader.position() as int;
        assert(item(pos) == Ok::<(OpensModel, int), Error>((nv, p2)));
        v.push(entry);
        proof {
            assert(opens_view(v@) =~= before.push(nv));
            if let Ok((xs, end)) = read_list(p2, n - i - 1, item) {
                assert(before + (seq![nv] + xs) =~= opens_view(v@) + xs);
            }
        }
        i = i + 1;
    }
    proof {
        assert(opens_view(v@) + Seq::<OpensModel>::empty() =~= opens_view(v@));
    }
    Ok(v)
}

/// The models of `provides` entries.
pub open spec fn provides_view(v: Seq<ModuleProvides>) -> Seq<ProvidesModel> {
    v.map_values(|x: ModuleProvides| x@)
}

/// Reads a two-byte count, then that many `provides` entries.
fn read_provides_vec(reader: &mut ClassReader, pool: &PoolRead) -> (r: Result<Vec<ModuleProvides>, Error>)
    ensures
        final(reader).data() == old(reader).data(),
        match read_counted(old(reader).data(), old(reader).position() as int, provides_item(old(reader).data(), pool@)) {
            Ok((v, end)) => r matches Ok(x) && provides_view(x@) == v && final(reader).position() == end,
            Err(e) => r is Err && r == Err::<Vec<ModuleProvides>, Error>(e),
        },
{
    let ghost b = reader.data();
    let ghost item = provides_item(b, pool@);
    let n = reader.read_u16()?;
    let ghost whole = read_list(reader.position() as int, n as int, item);
    let mut v: Vec<ModuleProvides> = Vec::new();
    let mut i: u16 = 0;
    assert(whole == prepend_list(provides_view(v@), whole)) by {
        if let Ok((xs, end)) = whole {
            assert(provides_view(v@) + xs =~= xs);
        }
    }
    while i < n
        invariant
            reader.data() == b,
            b == old(reader).data(),
            item == provides_item(b, pool@),
            i <= n,
            whole == read_counted(old(reader).data(), old(reader).position() as int, provides_item(old(reader).data(), pool@)),
            whole == prepend_list(provides_view(v@), read_list(reader.position() as int, n - i, item)),
        decreases n - i,
    {
        let ghost pos = reader.position() as int;
        let index = match reader.read_u16() {
            Ok(x) => x,
            Err(e) => { return Err(e); },
        };
        let name = match pool.get_class(index) {
            Ok(x) => x,
            Err(e) => { return Err(e); },
        };
        let provides_with = match read_class_names(reader, pool) {
            Ok(x) => x,
            Err(e) => { return Err(e); },
        };
        let entry = ModuleProvides { name, provides_with };
        let ghost before = provides_view(v@);
        let ghost nv = entry@;
        let ghost p2 = reader.position() as int;
        assert(item(pos) == Ok::<(ProvidesModel, int), Error>((nv, p2)));
        v.push(entry);
        proof {
            assert(provides_view(v@) =~= before.push(nv));
            if let Ok((xs, end)) = read_list(p2, n - i - 1, item) {
                assert(before + (seq![nv] + xs) =~= provides_view(v@) + xs);
            }
        }
        i = i + 1;
    }
    proof {
        assert(provides_view(v@) + Seq::<ProvidesModel>::empty() =~= provides_view(v@));
    }
    Ok(v)
}

/// Reads a `Module` attribute.
pub fn read_module(reader: &mut ClassReader, pool: &PoolRead) -> (r: Result<Module, Error>)
    ensures
        final(reader).data() == old(reader).data(),
        match read_module_at(old(reader).data(), old(reader).position() as int, pool@) {
            Ok((m, end)) => r matches Ok(x) && x@ == m && final(reader).position() == end,
            Err(e) => r is Err && r == Err::<Module, Error>(e),
        },
{
    let name = pool.get_module(reader.read_u16()?)?;
    let flags = ModuleFlags::from(reader.read_u16()?);
    let version = read_optional_utf8(reader, pool)?;
    let reqs = read_requires_vec(reader, pool)?;
    let exports = read_exports_vec(reader, pool)?;
    let opens = read_opens_vec(reader, pool)?;
    let uses = read_class_names(reader, pool)?;
    let provides = read_provides_vec(reader, pool)?;
    Ok(Module { name, flags, version, requires: reqs, exports, opens, uses, provides })
}

/// The layout of a `Module` attribute: the pool index of the module's name,
/// its flags and the pool index of its version (zero for none), each two
/// bytes; each `requires` entry is likewise the index of the required module,
/// its flags and the index of its version; each `exports` and `opens` entry is
/// the index of the package, then its flags.
pub proof fn lemma_module_layout(b: Seq<u8>, pos: int, p: Seq<Option<EntryModel>>)
    requires
        0 <= pos,
        pos + 6 <= b.len(),
    ensures
        ({
            let u0 = (b[pos] * 256 + b[pos + 1]) as u16;
            let u1 = (b[pos + 2] * 256 + b[pos + 3]) as u16;
            let u2 = (b[pos + 4] * 256 + b[pos + 5]) as u16;
            &&& read_module_at(b, pos, p) matches Ok((md, _)) ==> {
                &&& pool_module(p, u0) == Ok::<Seq<u32>, Error>(md.name)
                &&& md.flags == module_flags_of(u1)
                &&& pool_optional_utf8(p, u2) == Ok::<Option<Seq<u32>>, Error>(md.version)
            }
            &&& requires_item(b, p)(pos) matches Ok((r, _)) ==> {
                &&& pool_module(p, u0) == Ok::<Seq<u32>, Error>(r.name)
                &&& r.flags == module_requires_flags_of(u1)
                &&& pool_optional_utf8(p, u2) == Ok::<Option<Seq<u32>>, Error>(r.version)
            }
            &&& exports_item(b, p)(pos) matches Ok((x, _)) ==> {
                &&& pool_package(p, u0) == Ok::<Seq<u32>, Error>(x.name)
                &&& x.flags == module_exports_flags_of(u1)
            }
            &&& opens_item(b, p)(pos) matches Ok((x, _)) ==> {
                &&& pool_package(p, u0) == Ok::<Seq<u32>, Error>(x.name)
                &&& x.flags == module_opens_flags_of(u1)
            }
        }),
{
    assert(be_u16(b, pos) == b[pos] * 256 + b[pos + 1]);
    assert(be_u16(b, pos + 2) == b[pos + 2] * 256 + b[pos + 3]);
    assert(be_u16(b, pos + 4) == b[pos + 4] * 256 + b[pos + 5]);
}

} // verus!

