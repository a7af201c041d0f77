//! Modules: their names, flags and directives.
use vstd::prelude::*;
use crate::jstring::JavaString;
use crate::tree::class::ClassName;

verus! {

/// Represents the flags of a module.
#[derive(Debug, Clone, Copy, Default, PartialEq, Eq, Structural)]
pub struct ModuleFlags {
    pub is_open: bool,
    pub is_synthetic: bool,
    pub is_mandated: bool,
}

/// Interprets an `u16` as ModuleFlags flags; other bits are ignored.
pub open spec fn module_flags_of(value: u16) -> ModuleFlags {
    ModuleFlags {
        is_open: value & 0x0010 != 0,
        is_synthetic: value & 0x1000 != 0,
        is_mandated: value & 0x8000 != 0,
    }
}

/// The `u16` for the given ModuleFlags flags.
pub open spec fn module_flags_bits(a: ModuleFlags) -> u16 {
    (if a.is_open { 0x0010u16 } else { 0 }) | (if a.is_synthetic { 0x1000u16 } else { 0 }) | (if a.is_mandated { 0x8000u16 } else { 0 })
}

impl From<u16> for ModuleFlags {
    fn from(value: u16) -> (r: ModuleFlags) {
        ModuleFlags {
            is_open: value & 0x0010 != 0,
            is_synthetic: value & 0x1000 != 0,
            is_mandated: value & 0x8000 != 0,
        }
    }
}

impl vstd::std_specs::convert::FromSpecImpl<u16> for ModuleFlags {
    open spec fn obeys_from_spec() -> bool {
        true
    }

    open spec fn from_spec(v: u16) -> ModuleFlags {
        module_flags_of(v)
    }
}

impl From<ModuleFlags> for u16 {
    fn from(value: ModuleFlags) -> (r: u16) {
        (if value.is_open { 0x0010u16 } else { 0 }) | (if value.is_synthetic { 0x1000u16 } else { 0 }) | (if value.is_mandated { 0x8000u16 } else { 0 })
    }
}

impl vstd::std_specs::convert::FromSpecImpl<ModuleFlags> for u16 {
    open spec fn obeys_from_spec() -> bool {
        true
    }

    open spec fn from_spec(v: ModuleFlags) -> u16 {
        module_flags_bits(v)
    }
}

/// Writing ModuleFlags flags to an `u16` and reading them back gives them back.
pub proof fn lemma_module_flags_round_trip(a: ModuleFlags)
    ensures
        module_flags_of(module_flags_bits(a)) == a,
{
    let (x0, x1, x2) = (a.is_open, a.is_synthetic, a.is_mandated);
    assert({
        let v = (if x0 { 0x0010u16 } else { 0 }) | (if x1 { 0x1000u16 } else { 0 }) | (if x2 { 0x8000u16 } else { 0 });
        &&& (v & 0x0010 != 0) == x0
        &&& (v & 0x1000 != 0) == x1
        &&& (v & 0x8000 != 0) == x2
    }) by (bit_vector);
}

/// Each of the module flags stands for one bit of the `module_flags` item, in reading and
/// in writing: `0x0010` for `is_open` (the open flag), `0x1000` for `is_synthetic` (ACC_SYNTHETIC), `0x8000` for `is_mandated` (ACC_MANDATED).
pub proof fn lemma_module_flags_bits(v: u16, a: ModuleFlags)
    ensures
        module_flags_of(v).is_open == (v & 0x0010 != 0),
        module_flags_of(v).is_synthetic == (v & 0x1000 != 0),
        module_flags_of(v).is_mandated == (v & 0x8000 != 0),
        (module_flags_bits(a) & 0x0010 != 0) == a.is_open,
        (module_flags_bits(a) & 0x1000 != 0) == a.is_synthetic,
        (module_flags_bits(a) & 0x8000 != 0) == a.is_mandated,
{
    lemma_module_flags_round_trip(a);
}


/// Represents the flags of a module dependence.
#[derive(Debug, Clone, Copy, Default, PartialEq, Eq, Structural)]
pub struct ModuleRequiresFlags {
    pub is_transitive: bool,
    pub is_static_phase: bool,
    pub is_synthetic: bool,
    pub is_mandated: bool,
}

/// Interprets an `u16` as ModuleRequiresFlags flags; other bits are ignored.
pub open spec fn module_requires_flags_of(value: u16) -> ModuleRequiresFlags {
    ModuleRequiresFlags {
        is_transitive: value & 0x0020 != 0,
        is_static_phase: value & 0x0040 != 0,
        is_synthetic: value & 0x1000 != 0,
        is_mandated: value & 0x8000 != 0,
    }
}

/// The `u16` for the given ModuleRequiresFlags flags.
pub open spec fn module_requires_flags_bits(a: ModuleRequiresFlags) -> u16 {
    (if a.is_transitive { 0x0020u16 } else { 0 }) | (if a.is_static_phase { 0x0040u16 } else { 0 }) | (if a.is_synthetic { 0x1000u16 } else { 0 }) | (if a.is_mandated { 0x8000u16 } else { 0 })
}

impl From<u16> for ModuleRequiresFlags {
    fn from(value: u16) -> (r: ModuleRequiresFlags) {
        ModuleRequiresFlags {
            is_transitive: value & 0x0020 != 0,
            is_static_phase: value & 0x0040 != 0,
            is_synthetic: value & 0x1000 != 0,
            is_mandated: value & 0x8000 != 0,
        }
    }
}

impl vstd::std_specs::convert::FromSpecImpl<u16> for ModuleRequiresFlags {
    open spec fn obeys_from_spec() -> bool {
        true
    }

    open spec fn from_spec(v: u16) -> ModuleRequiresFlags {
        module_requires_flags_of(v)
    }
}

impl From<ModuleRequiresFlags> for u16 {
    fn from(value: ModuleRequiresFlags) -> (r: u16) {
        (if value.is_transitive { 0x0020u16 } else { 0 }) | (if value.is_static_phase { 0x0040u16 } else { 0 }) | (if value.is_synthetic { 0x1000u16 } else { 0 }) | (if value.is_mandated { 0x8000u16 } else { 0 })
    }
}

impl vstd::std_specs::convert::FromSpecImpl<ModuleRequiresFlags> for u16 {
    open spec fn obeys_from_spec() -> bool {
        true
    }

    open spec fn from_spec(v: ModuleRequiresFlags) -> u16 {
        module_requires_flags_bits(v)
    }
}

/// Writing ModuleRequiresFlags flags to an `u16` and reading them back gives them back.
pub proof fn lemma_module_requires_flags_round_trip(a: ModuleRequiresFlags)
    ensures
        module_requires_flags_of(module_requires_flags_bits(a)) == a,
{
    let (x0, x1, x2, x3) = (a.is_transitive, a.is_static_phase, a.is_synthetic, a.is_mandated);
    assert({
        let v = (if x0 { 0x0020u16 } else { 0 }) | (if x1 { 0x0040u16 } else { 0 }) | (if x2 { 0x1000u16 } else { 0 }) | (if x3 { 0x8000u16 } else { 0 });
        &&& (v & 0x0020 != 0) == x0
        &&& (v & 0x0040 != 0) == x1
        &&& (v & 0x1000 != 0) == x2
        &&& (v & 0x8000 != 0) == x3
    }) by (bit_vector);
}

/// Each of the module requires flags stands for one bit of the `requires_flags` item, in reading and
/// in writing: `0x0020` for `is_transitive` (ACC_TRANSITIVE), `0x0040` for `is_static_phase` (ACC_STATIC_PHASE), `0x1000` for `is_synthetic` (ACC_SYNTHETIC), `0x8000` for `is_mandated` (ACC_MANDATED).
pub proof fn lemma_module_requires_flags_bits(v: u16, a: ModuleRequiresFlags)
    ensures
        module_requires_flags_of(v).is_transitive == (v & 0x0020 != 0),
        module_requires_flags_of(v).is_static_phase == (v & 0x0040 != 0),
        module_requires_flags_of(v).is_synthetic == (v & 0x1000 != 0),
        module_requires_flags_of(v).is_mandated == (v & 0x8000 != 0),
        (module_requires_flags_bits(a) & 0x0020 != 0) == a.is_transitive,
        (module_requires_flags_bits(a) & 0x0040 != 0) == a.is_static_phase,
        (module_requires_flags_bits(a) & 0x1000 != 0) == a.is_synthetic,
        (module_requires_flags_bits(a) & 0x8000 != 0) == a.is_mandated,
{
    lemma_module_requires_flags_round_trip(a);
}


/// Represents the flags of a module export.
#[derive(Debug, Clone, Copy, Default, PartialEq, Eq, Structural)]
pub struct ModuleExportsFlags {
    pub is_synthetic: bool,
    pub is_mandated: bool,
}

/// Interprets an `u16` as ModuleExportsFlags flags; other bits are ignored.
pub open spec fn module_exports_flags_of(value: u16) -> ModuleExportsFlags {
    ModuleExportsFlags {
        is_synthetic: value & 0x1000 != 0,
        is_mandated: value & 0x8000 != 0,
    }
}

/// The `u16` for the given ModuleExportsFlags flags.
pub open spec fn module_exports_flags_bits(a: ModuleExportsFlags) -> u16 {
    (if a.is_synthetic { 0x1000u16 } else { 0 }) | (if a.is_mandated { 0x8000u16 } else { 0 })
}

impl From<u16> for ModuleExportsFlags {
    fn from(value: u16) -> (r: ModuleExportsFlags) {
        ModuleExportsFlags {
            is_synthetic: value & 0x1000 != 0,
            is_mandated: value & 0x8000 != 0,
        }
    }
}

impl vstd::std_specs::convert::FromSpecImpl<u16> for ModuleExportsFlags {
    open spec fn obeys_from_spec() -> bool {
        true
    }

    open spec fn from_spec(v: u16) -> ModuleExportsFlags {
        module_exports_flags_of(v)
    }
}

impl From<ModuleExportsFlags> for u16 {
    fn from(value: ModuleExportsFlags) -> (r: u16) {
        (if value.is_synthetic { 0x1000u16 } else { 0 }) | (if value.is_mandated { 0x8000u16 } else { 0 })
    }
}

impl vstd::std_specs::convert::FromSpecImpl<ModuleExportsFlags> for u16 {
    open spec fn obeys_from_spec() -> bool {
        true
    }

    open spec fn from_spec(v: ModuleExportsFlags) -> u16 {
        module_exports_flags_bits(v)
    }
}

/// Writing ModuleExportsFlags flags to an `u16` and reading them back gives them back.
pub proof fn lemma_module_exports_flags_round_trip(a: ModuleExportsFlags)
    ensures
        module_exports_flags_of(module_exports_flags_bits(a)) == a,
{
    let (x0, x1) = (a.is_synthetic, a.is_mandated);
    assert({
        let v = (if x0 { 0x1000u16 } else { 0 }) | (if x1 { 0x8000u16 } else { 0 });
        &&& (v & 0x1000 != 0) == x0
        &&& (v & 0x8000 != 0) == x1
    }) by (bit_vector);
}

/// Each of the module exports flags stands for one bit of the `exports_flags` item, in reading and
/// in writing: `0x1000` for `is_synthetic` (ACC_SYNTHETIC), `0x8000` for `is_mandated` (ACC_MANDATED).
pub proof fn lemma_module_exports_flags_bits(v: u16, a: ModuleExportsFlags)
    ensures
        module_exports_flags_of(v).is_synthetic == (v & 0x1000 != 0),
        module_exports_flags_of(v).is_mandated == (v & 0x8000 != 0),
        (module_exports_flags_bits(a) & 0x1000 != 0) == a.is_synthetic,
        (module_exports_flags_bits(a) & 0x8000 != 0) == a.is_mandated,
{
    lemma_module_exports_flags_round_trip(a);
}


/// Represents the flags of a module opening.
#[derive(Debug, Clone, Copy, Default, PartialEq, Eq, Structural)]
pub struct ModuleOpensFlags {
    pub is_synthetic: bool,
    pub is_mandated: bool,
}

/// Interprets an `u16` as ModuleOpensFlags flags; other bits are ignored.
pub open spec fn module_opens_flags_of(value: u16) -> ModuleOpensFlags {
    ModuleOpensFlags {
        is_synthetic: value & 0x1000 != 0,
        is_mandated: value & 0x8000 != 0,
    }
}

/// The `u16` for the given ModuleOpensFlags flags.
pub open spec fn module_opens_flags_bits(a: ModuleOpensFlags) -> u16 {
    (if a.is_synthetic { 0x1000u16 } else { 0 }) | (if a.is_mandated { 0x8000u16 } else { 0 })
}

impl From<u16> for ModuleOpensFlags {
    fn from(value: u16) -> (r: ModuleOpensFlags) {
        ModuleOpensFlags {
            is_synthetic: value & 0x1000 != 0,
            is_mandated: value & 0x8000 != 0,
        }
    }
}

impl vstd::std_specs::convert::FromSpecImpl<u16> for ModuleOpensFlags {
    open spec fn obeys_from_spec() -> bool {
        true
    }

    open spec fn from_spec(v: u16) -> ModuleOpensFlags {
        module_opens_flags_of(v)
    }
}

impl From<ModuleOpensFlags> for u16 {
    fn from(value: ModuleOpensFlags) -> (r: u16) {
        (if value.is_synthetic { 0x1000u16 } else { 0 }) | (if value.is_mandated { 0x8000u16 } else { 0 })
    }
}

impl vstd::std_specs::convert::FromSpecImpl<ModuleOpensFlags> for u16 {
    open spec fn obeys_from_spec() -> bool {
        true
    }

    open spec fn from_spec(v: ModuleOpensFlags) -> u16 {
        module_opens_flags_bits(v)
    }
}

/// Writing ModuleOpensFlags flags to an `u16` and reading them back gives them back.
pub proof fn lemma_module_opens_flags_round_trip(a: ModuleOpensFlags)
    ensures
        module_opens_flags_of(module_opens_flags_bits(a)) == a,
{
    let (x0, x1) = (a.is_synthetic, a.is_mandated);
    assert({
        let v = (if x0 { 0x1000u16 } else { 0 }) | (if x1 { 0x8000u16 } else { 0 });
        &&& (v & 0x1000 != 0) == x0
        &&& (v & 0x8000 != 0) == x1
    }) by (bit_vector);
}

/// Each of the module opens flags stands for one bit of the `opens_flags` item, in reading and
/// in writing: `0x1000` for `is_synthetic` (ACC_SYNTHETIC), `0x8000` for `is_mandated` (ACC_MANDATED).
pub proof fn lemma_module_opens_flags_bits(v: u16, a: ModuleOpensFlags)
    ensures
        module_opens_flags_of(v).is_synthetic == (v & 0x1000 != 0),
        module_opens_flags_of(v).is_mandated == (v & 0x8000 != 0),
        (module_opens_flags_bits(a) & 0x1000 != 0) == a.is_synthetic,
        (module_opens_flags_bits(a) & 0x8000 != 0) == a.is_mandated,
{
    lemma_module_opens_flags_round_trip(a);
}


/// Represents a module name.
#[derive(Debug, PartialEq, Eq)]
pub struct ModuleName(JavaString);

impl View for ModuleName {
    type V = Seq<u32>;

    closed spec fn view(&self) -> Seq<u32> {
        self.0@
    }
}

impl ModuleName {
    /// Wraps `s` without checking its contents.
    pub fn from_inner_unchecked(s: JavaString) -> (r: ModuleName)
        ensures
            r@ == s@,
    {
        ModuleName(s)
    }

    /// The underlying string.
    pub fn as_inner(&self) -> (r: &JavaString)
        ensures
            r@ == self@,
    {
        &self.0
    }

    /// Unwraps the underlying string.
    pub fn into_inner(self) -> (r: JavaString)
        ensures
            r@ == self@,
    {
        self.0
    }

    /// A copy of this value.
    pub fn duplicate(&self) -> (r: ModuleName)
        ensures
            r@ == self@,
    {
        ModuleName(self.0.duplicate())
    }

}

/// Represents a package name, with `/` between its parts.
#[derive(Debug, PartialEq, Eq)]
pub struct PackageName(JavaString);

impl View for PackageName {
    type V = Seq<u32>;

    closed spec fn view(&self) -> Seq<u32> {
        self.0@
    }
}

impl PackageName {
    /// Wraps `s` without checking its contents.
    pub fn from_inner_unchecked(s: JavaString) -> (r: PackageName)
        ensures
            r@ == s@,
    {
        PackageName(s)
    }

    /// The underlying string.
    pub fn as_inner(&self) -> (r: &JavaString)
        ensures
            r@ == self@,
    {
        &self.0
    }

    /// Unwraps the underlying string.
    pub fn into_inner(self) -> (r: JavaString)
        ensures
            r@ == self@,
    {
        self.0
    }

    /// A copy of this value.
    pub fn duplicate(&self) -> (r: PackageName)
        ensures
            r@ == self@,
    {
        PackageName(self.0.duplicate())
    }

}


/// The `Module` attribute.
#[derive(Debug, PartialEq, Eq)]
pub struct Module {
    pub name: ModuleName,
    pub flags: ModuleFlags,
    pub version: Option<JavaString>,
    pub requires: Vec<ModuleRequires>,
    pub exports: Vec<ModuleExports>,
    pub opens: Vec<ModuleOpens>,
    pub uses: Vec<ClassName>,
    pub provides: Vec<ModuleProvides>,
}

/// A dependence of a module.
#[derive(Debug, PartialEq, Eq)]
pub struct ModuleRequires {
    pub name: ModuleName,
    pub flags: ModuleRequiresFlags,
    pub version: Option<JavaString>,
}

/// A package exported by a module.
#[derive(Debug, PartialEq, Eq)]
pub struct ModuleExports {
    pub name: PackageName,
    pub flags: ModuleExportsFlags,
    pub exports_to: Vec<ModuleName>,
}

/// A package opened by a module.
#[derive(Debug, PartialEq, Eq)]
pub struct ModuleOpens {
    pub name: PackageName,
    pub flags: ModuleOpensFlags,
    pub opens_to: Vec<ModuleName>,
}

/// A service provided by a module.
#[derive(Debug, PartialEq, Eq)]
pub struct ModuleProvides {
    pub name: ClassName,
    pub provides_with: Vec<ClassName>,
}


/// The model of a [`ModuleRequires`].
pub ghost struct RequiresModel {
    pub name: Seq<u32>,
    pub flags: ModuleRequiresFlags,
    pub version: Option<Seq<u32>>,
}

/// The model of a [`ModuleExports`].
pub ghost struct ExportsModel {
    pub name: Seq<u32>,
    pub flags: ModuleExportsFlags,
    pub to: Seq<Seq<u32>>,
}

/// The model of a [`ModuleOpens`].
pub ghost struct OpensModel {
    pub name: Seq<u32>,
    pub flags: ModuleOpensFlags,
    pub to: Seq<Seq<u32>>,
}

/// The model of a [`ModuleProvides`].
pub ghost struct ProvidesModel {
    pub name: Seq<u32>,
    pub with: Seq<Seq<u32>>,
}

/// The model of a [`Module`].
pub ghost struct ModuleModel {
    pub name: Seq<u32>,
    pub flags: ModuleFlags,
    pub version: Option<Seq<u32>>,
    pub requires: Seq<RequiresModel>,
    pub exports: Seq<ExportsModel>,
    pub opens: Seq<OpensModel>,
    pub uses: Seq<Seq<u32>>,
    pub provides: Seq<ProvidesModel>,
}

/// The model of an optional string.
pub open spec fn opt_str_view(s: Option<JavaString>) -> Option<Seq<u32>> {
    match s {
        Some(x) => Some(x@),
        None => None,
    }
}

/// The models of module names.
pub open spec fn module_names_view(v: Seq<ModuleName>) -> Seq<Seq<u32>> {
    v.map_values(|n: ModuleName| n@)
}

/// The models of class names.
pub open spec fn class_names_view(v: Seq<ClassName>) -> Seq<Seq<u32>> {
    v.map_values(|n: ClassName| n@)
}

impl View for ModuleRequires {
    type V = RequiresModel;

    open spec fn view(&self) -> RequiresModel {
        RequiresModel { name: self.name@, flags: self.flags, version: opt_str_view(self.version) }
    }
}

impl View for ModuleExports {
    type V = ExportsModel;

    open spec fn view(&self) -> ExportsModel {
        ExportsModel { name: self.name@, flags: self.flags, to: module_names_view(self.exports_to@) }
    }
}

impl View for ModuleOpens {
    type V = OpensModel;

    open spec fn view(&self) -> OpensModel {
        OpensModel { name: self.name@, flags: self.flags, to: module_names_view(self.opens_to@) }
    }
}

impl View for ModuleProvides {
    type V = ProvidesModel;

    open spec fn view(&self) -> ProvidesModel {
        ProvidesModel { name: self.name@, with: class_names_view(self.provides_with@) }
    }
}

impl View for Module {
    type V = ModuleModel;

    open spec fn view(&self) -> ModuleModel {
        ModuleModel {
            name: self.name@,
            flags: self.flags,
            version: opt_str_view(self.version),
            requires: self.requires@.map_values(|r: ModuleRequires| r@),
            exports: self.exports@.map_values(|e: ModuleExports| e@),
            opens: self.opens@.map_values(|o: ModuleOpens| o@),
            uses: class_names_view(self.uses@),
            provides: self.provides@.map_values(|p: ModuleProvides| p@),
        }
    }
}

} // verus!
