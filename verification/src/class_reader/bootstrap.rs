//! Bootstrap methods, and the constants and call sites that refer to them:
//! dynamically computed constants and `invokedynamic` call sites.
use vstd::prelude::*;
use crate::bytes::{ClassReader, be_u16};
use crate::class_reader::module::{read_counted, read_list, prepend_list};
use crate::class_reader::pool::{
    EntryModel, PoolEntry, PoolRead, class_of, method_handle_of, method_type_of, pool_get, pool_method_handle,
    pool_name_and_type, string_of,
};
use crate::error::Error;
use crate::tree::code::{Handle, HandleModel};
use crate::tree::field::{FieldDescriptor, FieldName};
use crate::tree::instruction::{ConstantDynamic, DynamicModel, InvokeDynamic, Loadable, LoadableModel, loadables_view};
use crate::tree::method::{MethodDescriptor, MethodName};

verus! {

/// A bootstrap method as read: its handle, and the pool indices of its
/// arguments, which are resolved only where a dynamic constant or call site
/// uses the method.
#[derive(Debug)]
pub struct BootstrapMethodRead {
    pub handle: Handle,
    pub arguments: Vec<u16>,
}

/// The model of a [`BootstrapMethodRead`].
pub ghost struct BootstrapModel {
    pub handle: HandleModel,
    pub arguments: Seq<u16>,
}

impl View for BootstrapMethodRead {
    type V = BootstrapModel;

    open spec fn view(&self) -> BootstrapModel {
        BootstrapModel { handle: self.handle@, arguments: self.arguments@ }
    }
}

/// The models of the bootstrap methods of a class, `None` where it has no
/// `BootstrapMethods` attribute.
pub open spec fn bootstrap_view(b: Option<Vec<BootstrapMethodRead>>) -> Option<Seq<BootstrapModel>> {
    match b {
        Some(v) => Some(v@.map_values(|m: BootstrapMethodRead| m@)),
        None => None,
    }
}

/// The bootstrap method at `k`.
pub open spec fn bootstrap_at(bsm: Option<Seq<BootstrapModel>>, k: u16) -> Result<BootstrapModel, Error> {
    match bsm {
        Some(s) => if (k as int) < s.len() { Ok(s[k as int]) } else { Err(Error::MissingBootstrapMethod) },
        None => Err(Error::MissingBootstrapMethod),
    }
}

/// The loadable constant at `i`, where dynamic constants nest at most `fuel`
/// deep (`None` where they nest deeper).
pub open spec fn loadable_at(p: Seq<Option<EntryModel>>, bsm: Option<Seq<BootstrapModel>>, i: u16, fuel: nat)
    -> Option<Result<LoadableModel, Error>>
    decreases fuel, 0int, 0int,
{
    match pool_get(p, i) {
        Err(x) => Some(Err(x)),
        Ok(e) => match e {
            EntryModel::Integer { bytes } => Some(Ok(LoadableModel::Integer(bytes))),
            EntryModel::Float { bytes } => Some(Ok(LoadableModel::Float(bytes))),
            EntryModel::Long { bytes } => Some(Ok(LoadableModel::Long(bytes))),
            EntryModel::Double { bytes } => Some(Ok(LoadableModel::Double(bytes))),
            EntryModel::Class { .. } => Some(match class_of(p, e) {
                Ok(c) => Ok(LoadableModel::Class(c)),
                Err(x) => Err(x),
            }),
            EntryModel::String { .. } => Some(match string_of(p, e) {
                Ok(s) => Ok(LoadableModel::String(s)),
                Err(x) => Err(x),
            }),
            EntryModel::MethodHandle { .. } => Some(match method_handle_of(p, e) {
                Ok(h) => Ok(LoadableModel::MethodHandle(h)),
                Err(x) => Err(x),
            }),
            EntryModel::MethodType { .. } => Some(match method_type_of(p, e) {
                Ok(d) => Ok(LoadableModel::MethodType(d)),
                Err(x) => Err(x),
            }),
            EntryModel::Dynamic { bootstrap_method_attribute_index, name_and_type_index } => if fuel == 0 {
                None
            } else {
                match dynamic_at(p, bsm, bootstrap_method_attribute_index, name_and_type_index, (fuel - 1) as nat) {
                    Some(Ok(d)) => Some(Ok(LoadableModel::Dynamic(d))),
                    Some(Err(x)) => Some(Err(x)),
                    None => None,
                }
            },
            _ => Some(Err(Error::WrongPoolEntry)),
        },
    }
}

/// The dynamic constant or call site with the bootstrap method at `k` and the
/// name and type at `n`; its arguments nest at most `fuel` deep.
pub open spec fn dynamic_at(p: Seq<Option<EntryModel>>, bsm: Option<Seq<BootstrapModel>>, k: u16, n: u16, fuel: nat)
    -> Option<Result<DynamicModel, Error>>
    decreases fuel, 1int, 0int,
{
    match pool_name_and_type(p, n) {
        Err(x) => Some(Err(x)),
        Ok((name, descriptor)) => match bootstrap_at(bsm, k) {
            Err(x) => Some(Err(x)),
            Ok(m) => match loadables_at(p, bsm, m.arguments, fuel) {
                Some(Ok(arguments)) => Some(Ok(DynamicModel { name, descriptor, handle: m.handle, arguments })),
                Some(Err(x)) => Some(Err(x)),
                None => None,
            },
        },
    }
}

/// The loadable constants at the indices `args`, in order.
pub open spec fn loadables_at(p: Seq<Option<EntryModel>>, bsm: Option<Seq<BootstrapModel>>, args: Seq<u16>, fuel: nat)
    -> Option<Result<Seq<LoadableModel>, Error>>
    decreases fuel, 0int, args.len(),
{
    if args.len() == 0 {
        Some(Ok(Seq::empty()))
    } else {
        match loadable_at(p, bsm, args[0], fuel) {
            Some(Ok(v)) => match loadables_at(p, bsm, args.drop_first(), fuel) {
                Some(Ok(vs)) => Some(Ok(seq![v] + vs)),
                Some(Err(x)) => Some(Err(x)),
                None => None,
            },
            Some(Err(x)) => Some(Err(x)),
            None => None,
        }
    }
}

/// Whether the loadable constant at `i` can be resolved: its dynamic constants
/// do not refer to themselves, directly or through others.
pub open spec fn resolvable(p: Seq<Option<EntryModel>>, bsm: Option<Seq<BootstrapModel>>, i: u16) -> bool {
    exists|fuel: nat| #[trigger] loadable_at(p, bsm, i, fuel) is Some
}

/// The loadable constant at `i`, where it can be resolved.
pub open spec fn loadable_result(p: Seq<Option<EntryModel>>, bsm: Option<Seq<BootstrapModel>>, i: u16) -> Result<LoadableModel, Error> {
    loadable_at(p, bsm, i, choose|fuel: nat| #[trigger] loadable_at(p, bsm, i, fuel) is Some)->0
}

/// The call site of the `InvokeDynamic` entry at `i`, where its arguments nest
/// at most `fuel` deep.
pub open spec fn invoke_dynamic_at(p: Seq<Option<EntryModel>>, bsm: Option<Seq<BootstrapModel>>, i: u16, fuel: nat)
    -> Option<Result<DynamicModel, Error>>
{
    match pool_get(p, i) {
        Err(x) => Some(Err(x)),
        Ok(EntryModel::InvokeDynamic { bootstrap_method_attribute_index, name_and_type_index }) =>
            dynamic_at(p, bsm, bootstrap_method_attribute_index, name_and_type_index, fuel),
        Ok(_) => Some(Err(Error::WrongPoolEntry)),
    }
}

/// Whether the call site at `i` can be resolved.
pub open spec fn call_site_resolvable(p: Seq<Option<EntryModel>>, bsm: Option<Seq<BootstrapModel>>, i: u16) -> bool {
    exists|fuel: nat| #[trigger] invoke_dynamic_at(p, bsm, i, fuel) is Some
}

/// The call site at `i`, where it can be resolved.
pub open spec fn invoke_dynamic_result(p: Seq<Option<EntryModel>>, bsm: Option<Seq<BootstrapModel>>, i: u16) -> Result<DynamicModel, Error> {
    invoke_dynamic_at(p, bsm, i, choose|fuel: nat| #[trigger] invoke_dynamic_at(p, bsm, i, fuel) is Some)->0
}

/// The bootstrap method at `k`.
fn get_bootstrap(bootstrap_methods: &Option<Vec<BootstrapMethodRead>>, k: u16) -> (r: Result<&BootstrapMethodRead, Error>)
    ensures
        match bootstrap_at(bootstrap_view(*bootstrap_methods), k) {
            Ok(m) => r matches Ok(x) && x@ == m,
            Err(e) => r == Err::<&BootstrapMethodRead, Error>(e),
        },
{
    match bootstrap_methods {
        Some(v) => if (k as usize) < v.len() {
            Ok(&v[k as usize])
        } else {
            Err(Error::MissingBootstrapMethod)
        },
        None => Err(Error::MissingBootstrapMethod),
    }
}

impl PoolRead {
    /// The loadable constant at `index`, resolving dynamic constants through at
    /// most `fuel` levels.
    fn loadable_with(&self, index: u16, bootstrap_methods: &Option<Vec<BootstrapMethodRead>>, Ghost(fuel): Ghost<nat>)
        -> (r: Result<Loadable, Error>)
        requires
            loadable_at(self@, bootstrap_view(*bootstrap_methods), index, fuel) is Some,
        ensures
            match loadable_at(self@, bootstrap_view(*bootstrap_methods), index, fuel)->0 {
                Ok(v) => r matches Ok(x) && x@ == v,
                Err(e) => r == Err::<Loadable, Error>(e),
            },
        decreases fuel, 0int, 0int,
    {
        let entry = self.get(index)?;
        match entry {
            PoolEntry::Integer { bytes } => Ok(Loadable::Integer(*bytes)),
            PoolEntry::Float { bytes } => Ok(Loadable::Float(*bytes)),
            PoolEntry::Long { bytes } => Ok(Loadable::Long(*bytes)),
            PoolEntry::Double { bytes } => Ok(Loadable::Double(*bytes)),
            PoolEntry::Class { .. } => Ok(Loadable::Class(entry.as_class(self)?)),
            PoolEntry::String { .. } => Ok(Loadable::String(entry.as_string(self)?)),
            PoolEntry::MethodHandle { .. } => Ok(Loadable::MethodHandle(entry.as_method_handle(self)?)),
            PoolEntry::MethodType { .. } => Ok(Loadable::MethodType(entry.as_method_type(self)?)),
            PoolEntry::Dynamic { bootstrap_method_attribute_index, name_and_type_index } => {
                let (name, descriptor, handle, arguments) = self.dynamic_with(
                    *bootstrap_method_attribute_index, *name_and_type_index, bootstrap_methods, Ghost((fuel - 1) as nat))?;
                Ok(Loadable::Dynamic(ConstantDynamic {
                    name: FieldName::from_inner_unchecked(name),
                    descriptor: FieldDescriptor::from_inner_unchecked(descriptor),
                    handle,
                    arguments,
                }))
            },
            _ => Err(Error::WrongPoolEntry),
        }
    }

    /// The parts of the dynamic constant or call site with the bootstrap method
    /// at `k` and the name and type at `n`.
    fn dynamic_with(&self, k: u16, n: u16, bootstrap_methods: &Option<Vec<BootstrapMethodRead>>, Ghost(fuel): Ghost<nat>)
        -> (r: Result<(crate::jstring::JavaString, crate::jstring::JavaString, Handle, Vec<Loadable>), Error>)
        requires
            dynamic_at(self@, bootstrap_view(*bootstrap_methods), k, n, fuel) is Some,
        ensures
            match dynamic_at(self@, bootstrap_view(*bootstrap_methods), k, n, fuel)->0 {
                Ok(d) => r matches Ok((name, descriptor, handle, arguments)) && name@ == d.name
                    && descriptor@ == d.descriptor && handle@ == d.handle && loadables_view(arguments@) == d.arguments,
                Err(e) => r is Err && r == Err::<(crate::jstring::JavaString, crate::jstring::JavaString, Handle, Vec<Loadable>), Error>(e),
            },
        decreases fuel, 1int, 0int,
    {
        let (name, descriptor) = self.get_name_and_type(n)?;
        let method = get_bootstrap(bootstrap_methods, k)?;
        let handle = method.handle.duplicate();
        let arguments = self.loadables_with(&method.arguments, bootstrap_methods, Ghost(fuel))?;
        Ok((name, descriptor, handle, arguments))
    }

    /// The loadable constants at the indices `args`, in order.
    fn loadables_with(&self, args: &Vec<u16>, bootstrap_methods: &Option<Vec<BootstrapMethodRead>>, Ghost(fuel): Ghost<nat>)
        -> (r: Result<Vec<Loadable>, Error>)
        requires
            loadables_at(self@, bootstrap_view(*bootstrap_methods), args@, fuel) is Some,
        ensures
            match loadables_at(self@, bootstrap_view(*bootstrap_methods), args@, fuel)->0 {
                Ok(vs) => r matches Ok(x) && loadables_view(x@) == vs,
                Err(e) => r is Err && r == Err::<Vec<Loadable>, Error>(e),
            },
        decreases fuel, 0int, args@.len(),
    {
        let ghost bsm = bootstrap_view(*bootstrap_methods);
        let mut out: Vec<Loadable> = Vec::new();
        let mut i: usize = 0;
        let ghost whole = loadables_at(self@, bsm, args@, fuel);
        assert(args@.skip(0) =~= args@);
        assert(loadables_view(out@) =~= Seq::<LoadableModel>::empty());
        while i < args.len()
            invariant
                bsm == bootstrap_view(*bootstrap_methods),
                whole == loadables_at(self@, bsm, args@, fuel),
                whole is Some,
                i <= args@.len(),
                whole == match loadables_at(self@, bsm, args@.skip(i as int), fuel) {
                    Some(Ok(rest)) => Some(Ok(loadables_view(out@) + rest)),
                    other => other,
                },
            decreases args@.len() - i,
        {
            let ghost rest = args@.skip(i as int);
            assert(rest[0] == args@[i as int]);
            assert(rest.drop_first() =~= args@.skip(i + 1));
            let v = match self.loadable_with(args[i], bootstrap_methods, Ghost(fuel)) {
                Ok(v) => v,
                Err(e) => { return Err(e); },
            };
            proof {
                lemma_loadables_view_push(out@, v);
                match loadables_at(self@, bsm, args@.skip(i + 1), fuel) {
                    Some(Ok(vs)) => {
                        assert(loadables_view(out@) + (seq![v@] + vs) =~= loadables_view(out@).push(v@) + vs);
                    },
                    _ => {},
                }
            }
            out.push(v);
            i = i + 1;
        }
        proof {
            assert(args@.skip(i as int) =~= Seq::<u16>::empty());
            assert(loadables_view(out@) + Seq::<LoadableModel>::empty() =~= loadables_view(out@));
        }
        Ok(out)
    }

    /// The loadable constant at `index`, for `ldc`: an `Integer`, `Float`,
    /// `Long`, `Double`, `Class`, `String`, `MethodHandle`, `MethodType` or
    /// `Dynamic` entry, with the arguments of a dynamic constant resolved
    /// through the bootstrap methods.
    pub fn get_loadable(&self, index: u16, bootstrap_methods: &Option<Vec<BootstrapMethodRead>>) -> (r: Result<Loadable, Error>)
        requires
            resolvable(self@, bootstrap_view(*bootstrap_methods), index),
        ensures
            match loadable_result(self@, bootstrap_view(*bootstrap_methods), index) {
                Ok(v) => r matches Ok(x) && x@ == v,
                Err(e) => r == Err::<Loadable, Error>(e),
            },
    {
        let ghost fuel = choose|fuel: nat| #[trigger] loadable_at(self@, bootstrap_view(*bootstrap_methods), index, fuel) is Some;
        self.loadable_with(index, bootstrap_methods, Ghost(fuel))
    }

    /// The call site of the `InvokeDynamic` entry at `index`, with its
    /// arguments resolved through the bootstrap methods.
    pub fn get_invoke_dynamic(&self, index: u16, bootstrap_methods: &Option<Vec<BootstrapMethodRead>>) -> (r: Result<InvokeDynamic, Error>)
        requires
            call_site_resolvable(self@, bootstrap_view(*bootstrap_methods), index),
        ensures
            match invoke_dynamic_result(self@, bootstrap_view(*bootstrap_methods), index) {
                Ok(v) => r matches Ok(x) && x@ == v,
                Err(e) => r == Err::<InvokeDynamic, Error>(e),
            },
    {
        let ghost fuel = choose|fuel: nat| #[trigger] invoke_dynamic_at(self@, bootstrap_view(*bootstrap_methods), index, fuel) is Some;
        let entry = self.get(index)?;
        match entry {
            PoolEntry::InvokeDynamic { bootstrap_method_attribute_index, name_and_type_index } => {
                let (name, descriptor, handle, arguments) = self.dynamic_with(
                    *bootstrap_method_attribute_index, *name_and_type_index, bootstrap_methods, Ghost(fuel))?;
                Ok(InvokeDynamic {
                    name: MethodName::from_inner_unchecked(name),
                    descriptor: MethodDescriptor::from_inner_unchecked(descriptor),
                    handle,
                    arguments,
                })
            },
            _ => Err(Error::WrongPoolEntry),
        }
    }
}

/// Appending a constant appends its model.
proof fn lemma_loadables_view_push(s: Seq<Loadable>, v: Loadable)
    ensures
        loadables_view(s.push(v)) == loadables_view(s).push(v@),
    decreases s.len(),
{
    if s.len() == 0 {
        assert(s.push(v).drop_first() =~= Seq::<Loadable>::empty());
        assert(s.push(v)[0] == v);
        assert(loadables_view(Seq::<Loadable>::empty()) == Seq::<LoadableModel>::empty());
        assert(loadables_view(s) == Seq::<LoadableModel>::empty());
        assert(loadables_view(s.push(v)) =~= seq![v@]);
    } else {
        assert(s.push(v).drop_first() =~= s.drop_first().push(v));
        assert(s.push(v)[0] == s[0]);
        lemma_loadables_view_push(s.drop_first(), v);
        assert(loadables_view(s.push(v)) =~= loadables_view(s).push(v@));
    }
}

/// Reading a two-byte value at `pos`.
pub open spec fn u16_item(b: Seq<u8>) -> spec_fn(int) -> Result<(u16, int), Error> {
    |pos: int| if pos + 2 > b.len() { Err(Error::UnexpectedEnd) } else { Ok((be_u16(b, pos), pos + 2)) }
}

/// Reading a bootstrap method at `pos`: the index of its `MethodHandle` entry,
/// then a two-byte count and that many argument indices.
pub open spec fn bootstrap_item(b: Seq<u8>, p: Seq<Option<EntryModel>>) -> spec_fn(int) -> Result<(BootstrapModel, int), Error> {
    |pos: int| if pos + 2 > b.len() {
        Err(Error::UnexpectedEnd)
    } else {
        match pool_method_handle(p, be_u16(b, pos)) {
            Err(x) => Err(x),
            Ok(handle) => match read_counted(b, pos + 2, u16_item(b)) {
                Ok((arguments, end)) => Ok((BootstrapModel { handle, arguments }, end)),
                Err(x) => Err(x),
            },
        }
    }
}

/// The models of a sequence of bootstrap methods.
pub open spec fn bootstraps_view(s: Seq<BootstrapMethodRead>) -> Seq<BootstrapModel> {
    s.map_values(|m: BootstrapMethodRead| m@)
}

/// Reads a two-byte count, then that many two-byte values.
fn read_u16_vec(reader: &mut ClassReader) -> (r: Result<Vec<u16>, Error>)
    ensures
        final(reader).data() == old(reader).data(),
        match read_counted(old(reader).data(), old(reader).position() as int, u16_item(old(reader).data())) {
            Ok((v, end)) => r matches Ok(x) && x@ == v && final(reader).position() == end,
            Err(e) => r is Err && r == Err::<Vec<u16>, Error>(e),
        },
{
    let ghost b = reader.data();
    let ghost item = u16_item(b);
    let n = reader.read_u16()?;
    let ghost whole = read_list(reader.position() as int, n as int, item);
    let mut v: Vec<u16> = Vec::new();
    let mut i: u16 = 0;
    assert(whole == prepend_list(v@, whole)) by {
        if let Ok((xs, end)) = whole {
            assert(v@ + xs =~= xs);
        }
    }
    while i < n
        invariant
            reader.data() == b,
            b == old(reader).data(),
            item == u16_item(b),
            i <= n,
            whole == read_counted(old(reader).data(), old(reader).position() as int, u16_item(old(reader).data())),
            whole == prepend_list(v@, read_list(reader.position() as int, n - i, item)),
        decreases n - i,
    {
        let ghost pos = reader.position() as int;
        let x = match reader.read_u16() {
            Ok(x) => x,
            Err(e) => { return Err(e); },
        };
        let ghost before = v@;
        v.push(x);
        proof {
            if let Ok((xs, end)) = read_list(pos + 2, n - i - 1, item) {
                assert(before + (seq![x] + xs) =~= v@ + xs);
            }
        }
        i = i + 1;
    }
    proof {
        assert(v@ + Seq::<u16>::empty() =~= v@);
    }
    Ok(v)
}

/// Reads the contents of a `BootstrapMethods` attribute: a two-byte count,
/// then the bootstrap methods, each with its handle and argument indices.
pub fn read_bootstrap_methods(reader: &mut ClassReader, pool: &PoolRead) -> (r: Result<Vec<BootstrapMethodRead>, Error>)
    ensures
        final(reader).data() == old(reader).data(),
        match read_counted(old(reader).data(), old(reader).position() as int, bootstrap_item(old(reader).data(), pool@)) {
            Ok((v, end)) => r matches Ok(x) && bootstraps_view(x@) == v && final(reader).position() == end,
            Err(e) => r is Err && r == Err::<Vec<BootstrapMethodRead>, Error>(e),
        },
{
    let ghost b = reader.data();
    let ghost item = bootstrap_item(b, pool@);
    let n = reader.read_u16()?;
    let ghost whole = read_list(reader.position() as int, n as int, item);
    let mut v: Vec<BootstrapMethodRead> = Vec::new();
    let mut i: u16 = 0;
    assert(whole == prepend_list(bootstraps_view(v@), whole)) by {
        if let Ok((xs, end)) = whole {
            assert(bootstraps_view(v@) + xs =~= xs);
        }
    }
    while i < n
        invariant
            reader.data() == b,
            b == old(reader).data(),
            item == bootstrap_item(b, pool@),
            i <= n,
            whole == read_counted(old(reader).data(), old(reader).position() as int, bootstrap_item(old(reader).data(), pool@)),
            whole == prepend_list(bootstraps_view(v@), read_list(reader.position() as int, n - i, item)),
        decreases n - i,
    {
        let ghost pos = reader.position() as int;
        let index = match reader.read_u16() {
            Ok(x) => x,
            Err(e) => { return Err(e); },
        };
        let handle = match pool.get_method_handle(index) {
            Ok(x) => x,
            Err(e) => { return Err(e); },
        };
        let arguments = match read_u16_vec(reader) {
            Ok(x) => x,
            Err(e) => { return Err(e); },
        };
        let m = BootstrapMethodRead { handle, arguments };
        let ghost before = bootstraps_view(v@);
        let ghost mv = m@;
        v.push(m);
        proof {
            assert(bootstraps_view(v@) =~= before.push(mv));
            if let Ok((xs, end)) = read_list(reader.position() as int, n - i - 1, item) {
                assert(before + (seq![mv] + xs) =~= bootstraps_view(v@) + xs);
            }
        }
        i = i + 1;
    }
    proof {
        assert(bootstraps_view(v@) + Seq::<BootstrapModel>::empty() =~= bootstraps_view(v@));
    }
    Ok(v)
}

} // verus!
