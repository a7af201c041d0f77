//! Writing the `Module` attribute, adding the constant pool entries it refers to.
use vstd::prelude::*;
use crate::bytes::{u16_bytes, write_u16, write_usize_as_u16};
use crate::class_reader::pool::EntryModel;
use crate::error::Error;
use crate::jstring::JavaString;
use crate::simple_class_writer::pool::{PoolWrite, pool_slots, extends, put_utf8_spec, put_class_spec, put_module_spec,
    put_package_spec, lemma_extends_trans};
use crate::tree::class::ClassName;
use crate::tree::module::{Module, ModuleName, ModuleRequires, ModuleExports, ModuleOpens, ModuleProvides,
    RequiresModel, ExportsModel, OpensModel, ProvidesModel, module_flags_bits, module_requires_flags_bits,
    module_exports_flags_bits, module_opens_flags_bits, opt_str_view, module_names_view, class_names_view};

verus! {

/// The bytes written so far and the pool entries so far.
pub type WriteState = (Seq<u8>, Seq<EntryModel>);

/// Writing the index that adding an entry gave.
pub open spec fn put_index(bytes: Seq<u8>, r: (Result<u16, Error>, Seq<EntryModel>)) -> Result<WriteState, Error> {
    match r {
        (Ok(i), es) => Ok((bytes + u16_bytes(i), es)),
        (Err(e), _) => Err(e),
    }
}

/// Adding an optional string: the index zero for `None`.
pub open spec fn put_optional_utf8_spec(es: Seq<EntryModel>, v: Option<Seq<u32>>) -> (Result<u16, Error>, Seq<EntryModel>) {
    match v {
        Some(s) => put_utf8_spec(es, s),
        None => (Ok(0), es),
    }
}

/// Writing each of `items` with `f`, from the state `st` on.
pub open spec fn write_each<T>(st: Result<WriteState, Error>, items: Seq<T>, f: spec_fn(WriteState, T) -> Result<WriteState, Error>)
    -> Result<WriteState, Error>
    decreases items.len(),
{
    if items.len() == 0 {
        st
    } else {
        match st {
            Ok(s) => write_each(f(s, items[0]), items.skip(1), f),
            Err(e) => Err(e),
        }
    }
}

/// Writing the number of `items` as a `u16`, then each of them with `f`.
pub open spec fn write_counted<T>(st: WriteState, items: Seq<T>, f: spec_fn(WriteState, T) -> Result<WriteState, Error>)
    -> Result<WriteState, Error>
{
    if items.len() > 0xFFFF {
        Err(Error::ValueTooLarge)
    } else {
        write_each(Ok((st.0 + u16_bytes(items.len() as u16), st.1)), items, f)
    }
}

/// Writing the index of a `Module` entry.
pub open spec fn module_name_writer() -> spec_fn(WriteState, Seq<u32>) -> Result<WriteState, Error> {
    |st: WriteState, n: Seq<u32>| put_index(st.0, put_module_spec(st.1, n))
}

/// Writing the index of a `Class` entry.
pub open spec fn class_name_writer() -> spec_fn(WriteState, Seq<u32>) -> Result<WriteState, Error> {
    |st: WriteState, n: Seq<u32>| put_index(st.0, put_class_spec(st.1, n))
}

/// Writing a `requires` entry.
pub open spec fn requires_writer() -> spec_fn(WriteState, RequiresModel) -> Result<WriteState, Error> {
    |st: WriteState, r: RequiresModel| match put_index(st.0, put_module_spec(st.1, r.name)) {
        Ok((b, es)) => put_index(b + u16_bytes(module_requires_flags_bits(r.flags)), put_optional_utf8_spec(es, r.version)),
        Err(e) => Err(e),
    }
}

/// Writing an `exports` entry.
pub open spec fn exports_writer() -> spec_fn(WriteState, ExportsModel) -> Result<WriteState, Error> {
    |st: WriteState, x: ExportsModel| match put_index(st.0, put_package_spec(st.1, x.name)) {
        Ok((b, es)) => write_counted((b + u16_bytes(module_exports_flags_bits(x.flags)), es), x.to, module_name_writer()),
        Err(e) => Err(e),
    }
}

/// Writing an `opens` entry.
pub open spec fn opens_writer() -> spec_fn(WriteState, OpensModel) -> Result<WriteState, Error> {
    |st: WriteState, x: OpensModel| match put_index(st.0, put_package_spec(st.1, x.name)) {
        Ok((b, es)) => write_counted((b + u16_bytes(module_opens_flags_bits(x.flags)), es), x.to, module_name_writer()),
        Err(e) => Err(e),
    }
}

/// Writing a `provides` entry.
pub open spec fn provides_writer() -> spec_fn(WriteState, ProvidesModel) -> Result<WriteState, Error> {
    |st: WriteState, x: ProvidesModel| match put_index(st.0, put_class_spec(st.1, x.name)) {
        Ok(s) => write_counted(s, x.with, class_name_writer()),
        Err(e) => Err(e),
    }
}

/// One step of writing each item: the rest after the first.
pub proof fn lemma_write_each_step<T>(s: WriteState, items: Seq<T>, i: int, f: spec_fn(WriteState, T) -> Result<WriteState, Error>)
    requires
        0 <= i < items.len(),
    ensures
        write_each(Ok(s), items.skip(i), f) == write_each(f(s, items[i]), items.skip(i + 1), f),
{
    assert(items.skip(i)[0] == items[i]);
    assert(items.skip(i).skip(1) =~= items.skip(i + 1));
}

/// Writes the index of a module name, adding its entries to the pool.
fn write_module_name(w: &mut Vec<u8>, pool: &mut PoolWrite, name: &ModuleName) -> (r: Result<(), Error>)
    requires
        old(pool).wf(),
    ensures
        final(pool).wf(),
        extends(pool_slots(old(pool)@), pool_slots(final(pool)@)),
        match module_name_writer()((old(w)@, old(pool)@), name@) {
            Ok((b, es)) => r is Ok && final(w)@ == b && final(pool)@ == es,
            Err(e) => r == Err::<(), Error>(e),
        },
{
    let i = pool.put_module(name)?;
    write_u16(w, i);
    Ok(())
}

/// Writes the index of a class name, adding its entries to the pool.
fn write_class_name(w: &mut Vec<u8>, pool: &mut PoolWrite, name: &ClassName) -> (r: Result<(), Error>)
    requires
        old(pool).wf(),
    ensures
        final(pool).wf(),
        extends(pool_slots(old(pool)@), pool_slots(final(pool)@)),
        match class_name_writer()((old(w)@, old(pool)@), name@) {
            Ok((b, es)) => r is Ok && final(w)@ == b && final(pool)@ == es,
            Err(e) => r == Err::<(), Error>(e),
        },
{
    let i = pool.put_class(name)?;
    write_u16(w, i);
    Ok(())
}

/// Writes the index of an optional string, zero for `None`.
fn write_optional_utf8(w: &mut Vec<u8>, pool: &mut PoolWrite, v: &Option<JavaString>) -> (r: Result<(), Error>)
    requires
        old(pool).wf(),
    ensures
        final(pool).wf(),
        extends(pool_slots(old(pool)@), pool_slots(final(pool)@)),
        match put_index(old(w)@, put_optional_utf8_spec(old(pool)@, opt_str_view(*v))) {
            Ok((b, es)) => r is Ok && final(w)@ == b && final(pool)@ == es,
            Err(e) => r == Err::<(), Error>(e),
        },
{
    let i = match v {
        Some(s) => pool.put_utf8(s)?,
        None => 0,
    };
    write_u16(w, i);
    Ok(())
}


/// Writes the number of module names, then each of them, adding their entries to the pool.
fn write_module_names(w: &mut Vec<u8>, pool: &mut PoolWrite, items: &Vec<ModuleName>) -> (r: Result<(), Error>)
    requires
        old(pool).wf(),
    ensures
        final(pool).wf(),
        extends(pool_slots(old(pool)@), pool_slots(final(pool)@)),
        match write_counted((old(w)@, old(pool)@), module_names_view(items@), module_name_writer()) {
            Ok((b, es)) => r is Ok && final(w)@ == b && final(pool)@ == es,
            Err(e) => r == Err::<(), Error>(e),
        },
{
    let ghost f = module_name_writer();
    let ghost v = module_names_view(items@);
    write_usize_as_u16(w, items.len())?;
    let mut i: usize = 0;
    assert(v.skip(0) =~= v);
    while i < items.len()
        invariant
            pool.wf(),
            extends(pool_slots(old(pool)@), pool_slots(pool@)),
            f == module_name_writer(),
            v == module_names_view(items@),
            items@.len() <= 0xFFFF,
            i <= items@.len(),
            write_counted((old(w)@, old(pool)@), v, f) == write_each(Ok::<WriteState, Error>((w@, pool@)), v.skip(i as int), f),
        decreases items@.len() - i,
    {
        proof {
            lemma_write_each_step((w@, pool@), v, i as int, f);
            assert(v[i as int] == items@[i as int]@);
        }
        let ghost p0 = pool@;
        match write_module_name(w, pool, &items[i]) {
            Ok(()) => {},
            Err(e) => {
                return Err(e);
            },
        }
        proof {
            lemma_extends_trans(pool_slots(old(pool)@), pool_slots(p0), pool_slots(pool@));
        }
        i = i + 1;
    }
    assert(v.skip(items@.len() as int) =~= Seq::<Seq<u32>>::empty());
    Ok(())
}

/// Writes the number of class names, then each of them, adding their entries to the pool.
fn write_class_names(w: &mut Vec<u8>, pool: &mut PoolWrite, items: &Vec<ClassName>) -> (r: Result<(), Error>)
    requires
        old(pool).wf(),
    ensures
        final(pool).wf(),
        extends(pool_slots(old(pool)@), pool_slots(final(pool)@)),
        match write_counted((old(w)@, old(pool)@), class_names_view(items@), class_name_writer()) {
            Ok((b, es)) => r is Ok && final(w)@ == b && final(pool)@ == es,
            Err(e) => r == Err::<(), Error>(e),
        },
{
    let ghost f = class_name_writer();
    let ghost v = class_names_view(items@);
    write_usize_as_u16(w, items.len())?;
    let mut i: usize = 0;
    assert(v.skip(0) =~= v);
    while i < items.len()
        invariant
            pool.wf(),
            extends(pool_slots(old(pool)@), pool_slots(pool@)),
            f == class_name_writer(),
            v == class_names_view(items@),
            items@.len() <= 0xFFFF,
            i <= items@.len(),
            write_counted((old(w)@, old(pool)@), v, f) == write_each(Ok::<WriteState, Error>((w@, pool@)), v.skip(i as int), f),
        decreases items@.len() - i,
    {
        proof {
            lemma_write_each_step((w@, pool@), v, i as int, f);
            assert(v[i as int] == items@[i as int]@);
        }
        let ghost p0 = pool@;
        match write_class_name(w, pool, &items[i]) {
            Ok(()) => {},
            Err(e) => {
                return Err(e);
            },
        }
        proof {
            lemma_extends_trans(pool_slots(old(pool)@), pool_slots(p0), pool_slots(pool@));
        }
        i = i + 1;
    }
    assert(v.skip(items@.len() as int) =~= Seq::<Seq<u32>>::empty());
    Ok(())
}

/// Writes a `requires` entry, adding its entries to the pool.
fn write_requires(w: &mut Vec<u8>, pool: &mut PoolWrite, item: &ModuleRequires) -> (r: Result<(), Error>)
    requires
        old(pool).wf(),
    ensures
        final(pool).wf(),
        extends(pool_slots(old(pool)@), pool_slots(final(pool)@)),
        match requires_writer()((old(w)@, old(pool)@), item@) {
            Ok((b, es)) => r is Ok && final(w)@ == b && final(pool)@ == es,
            Err(e) => r == Err::<(), Error>(e),
        },
{
    let ghost p0 = pool@;
    write_module_name(w, pool, &item.name)?;
    let ghost p1 = pool@;
    write_u16(w, item.flags.into());
    write_optional_utf8(w, pool, &item.version)?;
    proof {
        lemma_extends_trans(pool_slots(p0), pool_slots(p1), pool_slots(pool@));
    }
    Ok(())
}

/// Writes an `exports` entry, adding its entries to the pool.
fn write_exports(w: &mut Vec<u8>, pool: &mut PoolWrite, item: &ModuleExports) -> (r: Result<(), Error>)
    requires
        old(pool).wf(),
    ensures
        final(pool).wf(),
        extends(pool_slots(old(pool)@), pool_slots(final(pool)@)),
        match exports_writer()((old(w)@, old(pool)@), item@) {
            Ok((b, es)) => r is Ok && final(w)@ == b && final(pool)@ == es,
            Err(e) => r == Err::<(), Error>(e),
        },
{
    let ghost p0 = pool@;
    let i = pool.put_package(&item.name)?;
    write_u16(w, i);
    let ghost p1 = pool@;
    write_u16(w, item.flags.into());
    write_module_names(w, pool, &item.exports_to)?;
    proof {
        lemma_extends_trans(pool_slots(p0), pool_slots(p1), pool_slots(pool@));
    }
    Ok(())
}

/// Writes an `opens` entry, adding its entries to the pool.
fn write_opens(w: &mut Vec<u8>, pool: &mut PoolWrite, item: &ModuleOpens) -> (r: Result<(), Error>)
    requires
        old(pool).wf(),
    ensures
        final(pool).wf(),
        extends(pool_slots(old(pool)@), pool_slots(final(pool)@)),
        match opens_writer()((old(w)@, old(pool)@), item@) {
            Ok((b, es)) => r is Ok && final(w)@ == b && final(pool)@ == es,
            Err(e) => r == Err::<(), Error>(e),
        },
{
    let ghost p0 = pool@;
    let i = pool.put_package(&item.name)?;
    write_u16(w, i);
    let ghost p1 = pool@;
    write_u16(w, item.flags.into());
    write_module_names(w, pool, &item.opens_to)?;
    proof {
        lemma_extends_trans(pool_slots(p0), pool_slots(p1), pool_slots(pool@));
    }
    Ok(())
}

/// Writes a `provides` entry, adding its entries to the pool.
fn write_provides(w: &mut Vec<u8>, pool: &mut PoolWrite, item: &ModuleProvides) -> (r: Result<(), Error>)
    requires
        old(pool).wf(),
    ensures
        final(pool).wf(),
        extends(pool_slots(old(pool)@), pool_slots(final(pool)@)),
        match provides_writer()((old(w)@, old(pool)@), item@) {
            Ok((b, es)) => r is Ok && final(w)@ == b && final(pool)@ == es,
            Err(e) => r == Err::<(), Error>(e),
        },
{
    let ghost p0 = pool@;
    write_class_name(w, pool, &item.name)?;
    let ghost p1 = pool@;
    write_class_names(w, pool, &item.provides_with)?;
    proof {
        lemma_extends_trans(pool_slots(p0), pool_slots(p1), pool_slots(pool@));
    }
    Ok(())
}

/// The models of `requires` entries.
pub open spec fn requires_view(v: Seq<ModuleRequires>) -> Seq<RequiresModel> {
    v.map_values(|x: ModuleRequires| x@)
}

/// The models of `exports` entries.
pub open spec fn exports_view(v: Seq<ModuleExports>) -> Seq<ExportsModel> {
    v.map_values(|x: ModuleExports| x@)
}

/// The models of `opens` entries.
pub open spec fn opens_view(v: Seq<ModuleOpens>) -> Seq<OpensModel> {
    v.map_values(|x: ModuleOpens| x@)
}

/// The models of `provides` entries.
pub open spec fn provides_view(v: Seq<ModuleProvides>) -> Seq<ProvidesModel> {
    v.map_values(|x: ModuleProvides| x@)
}

/// Writes the number of `requires` entries, then each of them, adding their entries to the pool.
fn write_requires_vec(w: &mut Vec<u8>, pool: &mut PoolWrite, items: &Vec<ModuleRequires>) -> (r: Result<(), Error>)
    requires
        old(pool).wf(),
    ensures
        final(pool).wf(),
        extends(pool_slots(old(pool)@), pool_slots(final(pool)@)),
        match write_counted((old(w)@, old(pool)@), requires_view(items@), requires_writer()) {
            Ok((b, es)) => r is Ok && final(w)@ == b && final(pool)@ == es,
            Err(e) => r == Err::<(), Error>(e),
        },
{
    let ghost f = requires_writer();
    let ghost v = requires_view(items@);
    write_usize_as_u16(w, items.len())?;
    let mut i: usize = 0;
    assert(v.skip(0) =~= v);
    while i < items.len()
        invariant
            pool.wf(),
            extends(pool_slots(old(pool)@), pool_slots(pool@)),
            f == requires_writer(),
            v == requires_view(items@),
            items@.len() <= 0xFFFF,
            i <= items@.len(),
            write_counted((old(w)@, old(pool)@), v, f) == write_each(Ok::<WriteState, Error>((w@, pool@)), v.skip(i as int), f),
        decreases items@.len() - i,
    {
        proof {
            lemma_write_each_step((w@, pool@), v, i as int, f);
            assert(v[i as int] == items@[i as int]@);
        }
        let ghost p0 = pool@;
        match write_requires(w, pool, &items[i]) {
            Ok(()) => {},
            Err(e) => {
                return Err(e);
            },
        }
        proof {
            lemma_extends_trans(pool_slots(old(pool)@), pool_slots(p0), pool_slots(pool@));
        }
        i = i + 1;
    }
    assert(v.skip(items@.len() as int) =~= Seq::<RequiresModel>::empty());
    Ok(())
}

/// Writes the number of `exports` entries, then each of them, adding their entries to the pool.
fn write_exports_vec(w: &mut Vec<u8>, pool: &mut PoolWrite, items: &Vec<ModuleExports>) -> (r: Result<(), Error>)
    requires
        old(pool).wf(),
    ensures
        final(pool).wf(),
        extends(pool_slots(old(pool)@), pool_slots(final(pool)@)),
        match write_counted((old(w)@, old(pool)@), exports_view(items@), exports_writer()) {
            Ok((b, es)) => r is Ok && final(w)@ == b && final(pool)@ == es,
            Err(e) => r == Err::<(), Error>(e),
        },
{
    let ghost f = exports_writer();
    let ghost v = exports_view(items@);
    write_usize_as_u16(w, items.len())?;
    let mut i: usize = 0;
    assert(v.skip(0) =~= v);
    while i < items.len()
        invariant
            pool.wf(),
            extends(pool_slots(old(pool)@), pool_slots(pool@)),
            f == exports_writer(),
            v == exports_view(items@),
            items@.len() <= 0xFFFF,
            i <= items@.len(),
            write_counted((old(w)@, old(pool)@), v, f) == write_each(Ok::<WriteState, Error>((w@, pool@)), v.skip(i as int), f),
        decreases items@.len() - i,
    {
        proof {
            lemma_write_each_step((w@, pool@), v, i as int, f);
            assert(v[i as int] == items@[i as int]@);
        }
        let ghost p0 = pool@;
        match write_exports(w, pool, &items[i]) {
            Ok(()) => {},
            Err(e) => {
                return Err(e);
            },
        }
        proof {
            lemma_extends_trans(pool_slots(old(pool)@), pool_slots(p0), pool_slots(pool@));
        }
        i = i + 1;
    }
    assert(v.skip(items@.len() as int) =~= Seq::<ExportsModel>::empty());
    Ok(())
}

/// Writes the number of `opens` entries, then each of them, adding their entries to the pool.
fn write_opens_vec(w: &mut Vec<u8>, pool: &mut PoolWrite, items: &Vec<ModuleOpens>) -> (r: Result<(), Error>)
    requires
        old(pool).wf(),
    ensures
        final(pool).wf(),
        extends(pool_slots(old(pool)@), pool_slots(final(pool)@)),
        match write_counted((old(w)@, old(pool)@), opens_view(items@), opens_writer()) {
            Ok((b, es)) => r is Ok && final(w)@ == b && final(pool)@ == es,
            Err(e) => r == Err::<(), Error>(e),
        },
{
    let ghost f = opens_writer();
    let ghost v = opens_view(items@);
    write_usize_as_u16(w, items.len())?;
    let mut i: usize = 0;
    assert(v.skip(0) =~= v);
    while i < items.len()
        invariant
            pool.wf(),
            extends(pool_slots(old(pool)@), pool_slots(pool@)),
            f == opens_writer(),
            v == opens_view(items@),
            items@.len() <= 0xFFFF,
            i <= items@.len(),
            write_counted((old(w)@, old(pool)@), v, f) == write_each(Ok::<WriteState, Error>((w@, pool@)), v.skip(i as int), f),
        decreases items@.len() - i,
    {
        proof {
            lemma_write_each_step((w@, pool@), v, i as int, f);
            assert(v[i as int] == items@[i as int]@);
        }
        let ghost p0 = pool@;
        match write_opens(w, pool, &items[i]) {
            Ok(()) => {},
            Err(e) => {
                return Err(e);
            },
        }
        proof {
            lemma_extends_trans(pool_slots(old(pool)@), pool_slots(p0), pool_slots(pool@));
        }
        i = i + 1;
    }
    assert(v.skip(items@.len() as int) =~= Seq::<OpensModel>::empty());
    Ok(())
}

/// Writes the number of `provides` entries, then each of them, adding their entries to the pool.
fn write_provides_vec(w: &mut Vec<u8>, pool: &mut PoolWrite, items: &Vec<ModuleProvides>) -> (r: Result<(), Error>)
    requires
        old(pool).wf(),
    ensures
        final(pool).wf(),
        extends(pool_slots(old(pool)@), pool_slots(final(pool)@)),
        match write_counted((old(w)@, old(pool)@), provides_view(items@), provides_writer()) {
            Ok((b, es)) => r is Ok && final(w)@ == b && final(pool)@ == es,
            Err(e) => r == Err::<(), Error>(e),
        },
{
    let ghost f = provides_writer();
    let ghost v = provides_view(items@);
    write_usize_as_u16(w, items.len())?;
    let mut i: usize = 0;
    assert(v.skip(0) =~= v);
    while i < items.len()
        invariant
            pool.wf(),
            extends(pool_slots(old(pool)@), pool_slots(pool@)),
            f == provides_writer(),
            v == provides_view(items@),
            items@.len() <= 0xFFFF,
            i <= items@.len(),
            write_counted((old(w)@, old(pool)@), v, f) == write_each(Ok::<WriteState, Error>((w@, pool@)), v.skip(i as int), f),
        decreases items@.len() - i,
    {
        proof {
            lemma_write_each_step((w@, pool@), v, i as int, f);
            assert(v[i as int] == items@[i as int]@);
        }
        let ghost p0 = pool@;
        match write_provides(w, pool, &items[i]) {
            Ok(()) => {},
            Err(e) => {
                return Err(e);
            },
        }
        proof {
            lemma_extends_trans(pool_slots(old(pool)@), pool_slots(p0), pool_slots(pool@));
        }
        i = i + 1;
    }
    assert(v.skip(items@.len() as int) =~= Seq::<ProvidesModel>::empty());
    Ok(())
}

/// Writing a `Module` attribute, from the state `st` on.
#[verifier::opaque]
pub open spec fn write_module_spec(st: WriteState, m: crate::tree::module::ModuleModel) -> Result<WriteState, Error> {
    match module_name_writer()(st, m.name) {
        Ok((b, es)) => match put_index(b + u16_bytes(module_flags_bits(m.flags)), put_optional_utf8_spec(es, m.version)) {
            Ok(s1) => match write_counted(s1, m.requires, requires_writer()) {
                Ok(s2) => match write_counted(s2, m.exports, exports_writer()) {
                    Ok(s3) => match write_counted(s3, m.opens, opens_writer()) {
                        Ok(s4) => match write_counted(s4, m.uses, class_name_writer()) {
                            Ok(s5) => write_counted(s5, m.provides, provides_writer()),
                            Err(e) => Err(e),
                        },
                        Err(e) => Err(e),
                    },
                    Err(e) => Err(e),
                },
                Err(e) => Err(e),
            },
            Err(e) => Err(e),
        },
        Err(e) => Err(e),
    }
}

/// Writes a `Module` attribute, adding the entries it refers to to the pool.
///
/// Fails with [`Error::ValueTooLarge`] if a list has more than 65535 entries,
/// and with [`Error::PoolOverflow`] if the pool fills up; what was written
/// before such an error stays written.
pub fn write_module(w: &mut Vec<u8>, pool: &mut PoolWrite, module: &Module) -> (r: Result<(), Error>)
    requires
        old(pool).wf(),
    ensures
        final(pool).wf(),
        extends(pool_slots(old(pool)@), pool_slots(final(pool)@)),
        match write_module_spec((old(w)@, old(pool)@), module@) {
            Ok((b, es)) => r is Ok && final(w)@ == b && final(pool)@ == es,
            Err(e) => r == Err::<(), Error>(e),
        },
{
    reveal(write_module_spec);
    let ghost p0 = pool@;
    write_module_name(w, pool, &module.name)?;
    let ghost p1 = pool@;
    write_u16(w, module.flags.into());
    write_optional_utf8(w, pool, &module.version)?;
    let ghost p2 = pool@;
    write_requires_vec(w, pool, &module.requires)?;
    let ghost p3 = pool@;
    write_exports_vec(w, pool, &module.exports)?;
    let ghost p4 = pool@;
    write_opens_vec(w, pool, &module.opens)?;
    let ghost p5 = pool@;
    write_class_names(w, pool, &module.uses)?;
    let ghost p6 = pool@;
    write_provides_vec(w, pool, &module.provides)?;
    proof {
        lemma_extends_trans(pool_slots(p0), pool_slots(p1), pool_slots(p2));
        lemma_extends_trans(pool_slots(p0), pool_slots(p2), pool_slots(p3));
        lemma_extends_trans(pool_slots(p0), pool_slots(p3), pool_slots(p4));
        lemma_extends_trans(pool_slots(p0), pool_slots(p4), pool_slots(p5));
        lemma_extends_trans(pool_slots(p0), pool_slots(p5), pool_slots(p6));
        lemma_extends_trans(pool_slots(p0), pool_slots(p6), pool_slots(pool@));
    }
    Ok(())
}

} // verus!
