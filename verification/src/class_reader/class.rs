//! Reading a whole class file: the header, the attributes of the class, then
//! its fields and methods.
use vstd::prelude::*;
use crate::bytes::{ClassReader, be_u16, be_u32};
use crate::class_reader::bootstrap::{BootstrapMethodRead, BootstrapModel, bootstrap_item, bootstrap_view,
    read_bootstrap_methods};
use crate::class_reader::annotation::{read_annotations, read_annotations_at, read_class_type_annotations,
    read_type_annotations_at, class_target};
use crate::class_reader::code_attribute::attribute_name;
use crate::tree::annotation::{annotations_view, type_annotations_view};
use crate::class_reader::field::{read_field, read_field_at};
use crate::class_reader::method::{MemberRead, read_method, read_method_at};
use crate::class_reader::module::{class_name_item, index_then, pool_optional_utf8, prepend_list, read_class_names,
    read_counted, read_list, read_module, read_module_at};
use crate::class_reader::pool::{EntryModel, PoolRead, pool_class, pool_name_and_type, pool_package, pool_utf8};
use crate::class_reader::{HeaderModel, opt_class_view, pool_optional_class, read_class_header, read_header_at, skip_members,
    skip_members_at};
use crate::error::Error;
use crate::jstring::{JavaString, decode, from_vec_to_string};
use crate::tree::attribute::{Attribute, AttributeModel};
use crate::tree::class::{ClassSignature, EnclosingMethod, InnerClass, InnerClassFlags, inner_class_flags_of};
use crate::tree::class_file::{ClassFile, ClassModel, EnclosingModel, InnerClassModel, inner_classes_view,
    new_class, package_names_view};
use crate::tree::descriptor::{valid_field_descriptor, valid_method_descriptor};
use crate::tree::field::{FieldDescriptor, FieldSignature};
use crate::tree::member::{Field, Method};
use crate::tree::method::{MethodDescriptor, MethodName, MethodNameAndDesc};
use crate::tree::module::{PackageName, class_names_view};
use crate::tree::names::valid_method_name;
use crate::tree::record::{RecordComponent, RecordModel, RecordName, new_record_component};
use crate::visitor::{ClassInterests, CodeInterests, FieldInterests, MethodInterests, every_class_attribute,
    every_code_attribute, every_field_attribute, every_method_attribute};

verus! {

/// Skipping `length` bytes from `q` on, keeping `st`.
pub open spec fn skip_to<T>(st: T, q: int, length: int) -> Result<(T, int), Error> {
    if q + length > usize::MAX {
        Err(Error::InvalidSeek)
    } else {
        Ok((st, q + length))
    }
}

/// Whether an attribute named `name` is one of the two type annotation
/// attributes, which are skipped.
pub open spec fn type_annotation_attr(name: Seq<u32>) -> bool {
    ||| name == attribute_name("RuntimeVisibleTypeAnnotations")
    ||| name == attribute_name("RuntimeInvisibleTypeAnnotations")
}

/// Reading the contents of the record component attribute named `name`,
/// `length` bytes long, at `q`, into `st`.
pub open spec fn record_attr(b: Seq<u8>, q: int, length: int, name: Seq<u32>, p: Seq<Option<EntryModel>>,
    st: RecordModel) -> Result<(RecordModel, int), Error>
{
    if name == attribute_name("Signature") {
        match index_then(b, q, pool_utf8(p, be_u16(b, q))) {
            Ok((s, end)) => if st.signature is Some {
                Err(Error::DuplicateAttribute)
            } else {
                Ok((RecordModel { signature: Some(s), ..st }, end))
            },
            Err(e) => Err(e),
        }
    } else if name == attribute_name("RuntimeVisibleAnnotations") {
        match read_annotations_at(b, q, p) {
            Ok((v, end)) => Ok((RecordModel { runtime_visible_annotations: st.runtime_visible_annotations + v, ..st }, end)),
            Err(e) => Err(e),
        }
    } else if name == attribute_name("RuntimeInvisibleAnnotations") {
        match read_annotations_at(b, q, p) {
            Ok((v, end)) => Ok((RecordModel { runtime_invisible_annotations: st.runtime_invisible_annotations + v, ..st }, end)),
            Err(e) => Err(e),
        }
    } else if type_annotation_attr(name) {
        skip_to(st, q, length)
    } else if q + length > b.len() {
        Err(Error::UnexpectedEnd)
    } else {
        Ok((RecordModel {
            attributes: st.attributes.push(AttributeModel { name, bytes: b.subrange(q, q + length) }),
            ..st
        }, q + length))
    }
}

/// Reading one record component attribute at `pos`: a two-byte name index and
/// a four-byte length, then its contents.
pub open spec fn record_attr_at(b: Seq<u8>, pos: int, p: Seq<Option<EntryModel>>, st: RecordModel)
    -> Result<(RecordModel, int), Error>
{
    if pos + 2 > b.len() {
        Err(Error::UnexpectedEnd)
    } else {
        match pool_utf8(p, be_u16(b, pos)) {
            Err(e) => Err(e),
            Ok(name) => if pos + 6 > b.len() {
                Err(Error::UnexpectedEnd)
            } else {
                record_attr(b, pos + 6, be_u32(b, pos + 2) as int, name, p, st)
            },
        }
    }
}

/// Reading `n` record component attributes from `pos` on.
pub open spec fn record_attrs(b: Seq<u8>, pos: int, n: int, p: Seq<Option<EntryModel>>, st: RecordModel)
    -> Result<(RecordModel, int), Error>
    decreases n,
{
    if n <= 0 {
        Ok((st, pos))
    } else {
        match record_attr_at(b, pos, p, st) {
            Ok((st2, next)) => record_attrs(b, next, n - 1, p, st2),
            Err(e) => Err(e),
        }
    }
}

/// Reading a record component at `pos`: the index of its name, the index of
/// its descriptor (which must be a valid field descriptor), then its attributes.
pub open spec fn read_record_at(b: Seq<u8>, pos: int, p: Seq<Option<EntryModel>>) -> Result<(RecordModel, int), Error> {
    if pos + 2 > b.len() {
        Err(Error::UnexpectedEnd)
    } else {
        match pool_utf8(p, be_u16(b, pos)) {
            Err(e) => Err(e),
            Ok(name) => if pos + 4 > b.len() {
                Err(Error::UnexpectedEnd)
            } else {
                match pool_utf8(p, be_u16(b, pos + 2)) {
                    Err(e) => Err(e),
                    Ok(d) => if !valid_field_descriptor(d) {
                        Err(Error::InvalidDescriptor)
                    } else if pos + 6 > b.len() {
                        Err(Error::UnexpectedEnd)
                    } else {
                        record_attrs(b, pos + 6, be_u16(b, pos + 4) as int, p, new_record_component(name, d))
                    },
                }
            },
        }
    }
}

/// Reading a record component.
pub open spec fn record_item(b: Seq<u8>, p: Seq<Option<EntryModel>>) -> spec_fn(int) -> Result<(RecordModel, int), Error> {
    |pos: int| read_record_at(b, pos, p)
}

/// Reading an entry of an `InnerClasses` attribute: the inner class, the outer
/// class (zero for none), the inner name (zero for none) and the flags.
pub open spec fn inner_class_item(b: Seq<u8>, p: Seq<Option<EntryModel>>) -> spec_fn(int) -> Result<(InnerClassModel, int), Error> {
    |pos: int| match index_then(b, pos, pool_class(p, be_u16(b, pos))) {
        Err(e) => Err(e),
        Ok((inner_class, p1)) => match index_then(b, p1, pool_optional_class(p, be_u16(b, p1))) {
            Err(e) => Err(e),
            Ok((outer_class, p2)) => match index_then(b, p2, pool_optional_utf8(p, be_u16(b, p2))) {
                Err(e) => Err(e),
                Ok((inner_name, p3)) => if p3 + 2 > b.len() {
                    Err(Error::UnexpectedEnd)
                } else {
                    Ok((InnerClassModel { inner_class, outer_class, inner_name, flags: inner_class_flags_of(be_u16(b, p3)) },
                        p3 + 2))
                },
            },
        },
    }
}

/// The method named by the `NameAndType` entry at `i`, or `None` for the index
/// zero; its name must be a method name and its descriptor a method descriptor.
pub open spec fn pool_optional_method(p: Seq<Option<EntryModel>>, i: u16) -> Result<Option<(Seq<u32>, Seq<u32>)>, Error> {
    if i == 0 {
        Ok(None)
    } else {
        match pool_name_and_type(p, i) {
            Err(e) => Err(e),
            Ok((n, d)) => if !valid_method_name(n) {
                Err(Error::InvalidName)
            } else if !valid_method_descriptor(d) {
                Err(Error::InvalidDescriptor)
            } else {
                Ok(Some((n, d)))
            },
        }
    }
}

/// Reading the contents of an `EnclosingMethod` attribute at `pos`.
pub open spec fn read_enclosing_at(b: Seq<u8>, pos: int, p: Seq<Option<EntryModel>>) -> Result<(EnclosingModel, int), Error> {
    match index_then(b, pos, pool_class(p, be_u16(b, pos))) {
        Err(e) => Err(e),
        Ok((class, p1)) => match index_then(b, p1, pool_optional_method(p, be_u16(b, p1))) {
            Err(e) => Err(e),
            Ok((method, end)) => Ok((EnclosingModel { class, method }, end)),
        },
    }
}

/// Reading the index of a `Package` entry.
pub open spec fn package_item(b: Seq<u8>, p: Seq<Option<EntryModel>>) -> spec_fn(int) -> Result<(Seq<u32>, int), Error> {
    |pos: int| index_then(b, pos, pool_package(p, be_u16(b, pos)))
}

/// What is known while the attributes of a class are read: the class so far,
/// the bootstrap methods once read, and whether a `Record` attribute was seen.
pub ghost struct ClassState {
    pub class: ClassModel,
    pub bsm: Option<Seq<BootstrapModel>>,
    pub had_record: bool,
}

/// Sets a part of the class that may be given once only: `DuplicateAttribute`
/// where it was given already.
pub open spec fn set_once<T>(old: Option<T>, st: ClassState, c: ClassModel, end: int) -> Result<(ClassState, int), Error> {
    if old is Some {
        Err(Error::DuplicateAttribute)
    } else {
        Ok((ClassState { class: c, ..st }, end))
    }
}

/// The second half of [`class_attr`]: the module attributes, the nest
/// attributes, the record, the bootstrap methods and unknown attributes.
#[verifier::opaque]
pub open spec fn class_attr_rest(b: Seq<u8>, q: int, length: int, name: Seq<u32>, p: Seq<Option<EntryModel>>,
    ci: ClassInterests, st: ClassState) -> Result<(ClassState, int), Error>
{
    let c = st.class;
    if name == attribute_name("Module") {
        if !ci.module {
            skip_to(st, q, length)
        } else {
            match read_module_at(b, q, p) {
                Ok((m, end)) => set_once(c.module, st, ClassModel { module: Some(m), ..c }, end),
                Err(e) => Err(e),
            }
        }
    } else if name == attribute_name("ModulePackages") {
        if !ci.module_packages {
            skip_to(st, q, length)
        } else {
            match read_counted(b, q, package_item(b, p)) {
                Ok((v, end)) => set_once(c.module_packages, st, ClassModel { module_packages: Some(v), ..c }, end),
                Err(e) => Err(e),
            }
        }
    } else if name == attribute_name("ModuleMainClass") {
        if !ci.module_main_class {
            skip_to(st, q, length)
        } else {
            match index_then(b, q, pool_class(p, be_u16(b, q))) {
                Ok((x, end)) => set_once(c.module_main_class, st, ClassModel { module_main_class: Some(x), ..c }, end),
                Err(e) => Err(e),
            }
        }
    } else if name == attribute_name("NestHost") {
        if !ci.nest_host {
            skip_to(st, q, length)
        } else {
            match index_then(b, q, pool_class(p, be_u16(b, q))) {
                Ok((x, end)) => set_once(c.nest_host_class, st, ClassModel { nest_host_class: Some(x), ..c }, end),
                Err(e) => Err(e),
            }
        }
    } else if name == attribute_name("NestMembers") {
        if !ci.nest_members {
            skip_to(st, q, length)
        } else {
            match read_counted(b, q, class_name_item(b, p)) {
                Ok((v, end)) => set_once(c.nest_members, st, ClassModel { nest_members: Some(v), ..c }, end),
                Err(e) => Err(e),
            }
        }
    } else if name == attribute_name("PermittedSubclasses") {
        if !ci.permitted_subclasses {
            skip_to(st, q, length)
        } else {
            match read_counted(b, q, class_name_item(b, p)) {
                Ok((v, end)) => set_once(c.permitted_subclasses, st, ClassModel { permitted_subclasses: Some(v), ..c }, end),
                Err(e) => Err(e),
            }
        }
    } else if name == attribute_name("Record") {
        if !ci.record {
            skip_to(st, q, length)
        } else if st.had_record {
            Err(Error::DuplicateAttribute)
        } else {
            match read_counted(b, q, record_item(b, p)) {
                Ok((v, end)) => Ok((ClassState {
                    class: ClassModel { record_components: c.record_components + v, ..c },
                    had_record: true,
                    ..st
                }, end)),
                Err(e) => Err(e),
            }
        }
    } else if name == attribute_name("BootstrapMethods") {
        match read_counted(b, q, bootstrap_item(b, p)) {
            Ok((v, end)) => if st.bsm is Some {
                Err(Error::DuplicateAttribute)
            } else {
                Ok((ClassState { bsm: Some(v), ..st }, end))
            },
            Err(e) => Err(e),
        }
    } else if !ci.unknown_attributes {
        skip_to(st, q, length)
    } else if q + length > b.len() {
        Err(Error::UnexpectedEnd)
    } else {
        Ok((ClassState {
            class: ClassModel {
                attributes: c.attributes.push(AttributeModel { name, bytes: b.subrange(q, q + length) }),
                ..c
            },
            ..st
        }, q + length))
    }
}

/// Reading the contents of the class attribute named `name`, `length` bytes
/// long, at `q`, as the interests ask. Bootstrap methods are always read.
#[verifier::opaque]
pub open spec fn class_attr(b: Seq<u8>, q: int, length: int, name: Seq<u32>, p: Seq<Option<EntryModel>>,
    ci: ClassInterests, st: ClassState) -> Result<(ClassState, int), Error>
{
    let c = st.class;
    if name == attribute_name("Deprecated") {
        Ok((ClassState { class: ClassModel { has_deprecated_attribute: true, ..c }, ..st }, q))
    } else if name == attribute_name("Synthetic") {
        Ok((ClassState { class: ClassModel { has_synthetic_attribute: true, ..c }, ..st }, q))
    } else if name == attribute_name("InnerClasses") {
        if !ci.inner_classes {
            skip_to(st, q, length)
        } else {
            match read_counted(b, q, inner_class_item(b, p)) {
                Ok((v, end)) => set_once(c.inner_classes, st, ClassModel { inner_classes: Some(v), ..c }, end),
                Err(e) => Err(e),
            }
        }
    } else if name == attribute_name("EnclosingMethod") {
        if !ci.enclosing_method {
            skip_to(st, q, length)
        } else {
            match read_enclosing_at(b, q, p) {
                Ok((m, end)) => set_once(c.enclosing_method, st, ClassModel { enclosing_method: Some(m), ..c }, end),
                Err(e) => Err(e),
            }
        }
    } else if name == attribute_name("Signature") {
        if !ci.signature {
            skip_to(st, q, length)
        } else {
            match index_then(b, q, pool_utf8(p, be_u16(b, q))) {
                Ok((s, end)) => set_once(c.signature, st, ClassModel { signature: Some(s), ..c }, end),
                Err(e) => Err(e),
            }
        }
    } else if name == attribute_name("SourceFile") {
        if !ci.source_file {
            skip_to(st, q, length)
        } else {
            match index_then(b, q, pool_utf8(p, be_u16(b, q))) {
                Ok((s, end)) => set_once(c.source_file, st, ClassModel { source_file: Some(s), ..c }, end),
                Err(e) => Err(e),
            }
        }
    } else if name == attribute_name("SourceDebugExtension") {
        if !ci.source_debug_extension {
            skip_to(st, q, length)
        } else if q + length > b.len() {
            Err(Error::UnexpectedEnd)
        } else {
            match decode(b.subrange(q, q + length)) {
                Some(s) => set_once(c.source_debug_extension, st, ClassModel { source_debug_extension: Some(s), ..c },
                    q + length),
                None => Err(Error::InvalidModifiedUtf8),
            }
        }
    } else {
        class_attr_annotations(b, q, length, name, p, ci, st)
    }
}

/// The annotation attributes of a class: the annotations and the type
/// annotations, each added to those read before; any other attribute goes on
/// to [`class_attr_rest`].
#[verifier::opaque]
pub open spec fn class_attr_annotations(b: Seq<u8>, q: int, length: int, name: Seq<u32>, p: Seq<Option<EntryModel>>,
    ci: ClassInterests, st: ClassState) -> Result<(ClassState, int), Error>
{
    let c = st.class;
    if name == attribute_name("RuntimeVisibleAnnotations") {
        if !ci.runtime_visible_annotations {
            skip_to(st, q, length)
        } else {
            match read_annotations_at(b, q, p) {
                Ok((v, end)) => Ok((ClassState {
                    class: ClassModel { runtime_visible_annotations: c.runtime_visible_annotations + v, ..c },
                    ..st
                }, end)),
                Err(e) => Err(e),
            }
        }
    } else if name == attribute_name("RuntimeInvisibleAnnotations") {
        if !ci.runtime_invisible_annotations {
            skip_to(st, q, length)
        } else {
            match read_annotations_at(b, q, p) {
                Ok((v, end)) => Ok((ClassState {
                    class: ClassModel { runtime_invisible_annotations: c.runtime_invisible_annotations + v, ..c },
                    ..st
                }, end)),
                Err(e) => Err(e),
            }
        }
    } else if name == attribute_name("RuntimeVisibleTypeAnnotations") {
        if !ci.runtime_visible_type_annotations {
            skip_to(st, q, length)
        } else {
            match read_type_annotations_at(b, q, p, class_target()) {
                Ok((v, end)) => Ok((ClassState {
                    class: ClassModel { runtime_visible_type_annotations: c.runtime_visible_type_annotations + v, ..c },
                    ..st
                }, end)),
                Err(e) => Err(e),
            }
        }
    } else if name == attribute_name("RuntimeInvisibleTypeAnnotations") {
        if !ci.runtime_invisible_type_annotations {
            skip_to(st, q, length)
        } else {
            match read_type_annotations_at(b, q, p, class_target()) {
                Ok((v, end)) => Ok((ClassState {
                    class: ClassModel { runtime_invisible_type_annotations: c.runtime_invisible_type_annotations + v, ..c },
                    ..st
                }, end)),
                Err(e) => Err(e),
            }
        }
    } else {
        class_attr_rest(b, q, length, name, p, ci, st)
    }
}

/// Reading one class attribute at `pos`: a two-byte name index and a four-byte
/// length, then its contents.
pub open spec fn class_attr_at(b: Seq<u8>, pos: int, p: Seq<Option<EntryModel>>, ci: ClassInterests, st: ClassState)
    -> Result<(ClassState, int), Error>
{
    if pos + 2 > b.len() {
        Err(Error::UnexpectedEnd)
    } else {
        match pool_utf8(p, be_u16(b, pos)) {
            Err(e) => Err(e),
            Ok(name) => if pos + 6 > b.len() {
                Err(Error::UnexpectedEnd)
            } else {
                class_attr(b, pos + 6, be_u32(b, pos + 2) as int, name, p, ci, st)
            },
        }
    }
}

/// Reading `n` class attributes from `pos` on.
pub open spec fn class_attrs(b: Seq<u8>, pos: int, n: int, p: Seq<Option<EntryModel>>, ci: ClassInterests, st: ClassState)
    -> Result<(ClassState, int), Error>
    decreases n,
{
    if n <= 0 {
        Ok((st, pos))
    } else {
        match class_attr_at(b, pos, p, ci, st) {
            Ok((st2, next)) => class_attrs(b, next, n - 1, p, ci, st2),
            Err(e) => Err(e),
        }
    }
}

/// Reading `n` fields from `pos` on, adding each to the class `c`.
pub open spec fn read_fields_from(b: Seq<u8>, pos: int, n: int, p: Seq<Option<EntryModel>>, fi: FieldInterests,
    c: ClassModel) -> MemberRead<ClassModel>
    decreases n,
{
    if n <= 0 {
        MemberRead::Read(c, pos)
    } else {
        match read_field_at(b, pos, p, fi) {
            MemberRead::Read(f, next) => read_fields_from(b, next, n - 1, p, fi, ClassModel { fields: c.fields.push(f), ..c }),
            MemberRead::Fail(e) => MemberRead::Fail(e),
            MemberRead::Excluded => MemberRead::Excluded,
        }
    }
}

/// Reading `n` methods from `pos` on, adding each to the class `c`.
pub open spec fn read_methods_from(b: Seq<u8>, pos: int, n: int, p: Seq<Option<EntryModel>>,
    bsm: Option<Seq<BootstrapModel>>, mi: MethodInterests, cdi: CodeInterests, c: ClassModel) -> MemberRead<ClassModel>
    decreases n,
{
    if n <= 0 {
        MemberRead::Read(c, pos)
    } else {
        match read_method_at(b, pos, p, bsm, mi, cdi) {
            MemberRead::Read(m, next) =>
                read_methods_from(b, next, n - 1, p, bsm, mi, cdi, ClassModel { methods: c.methods.push(m), ..c }),
            MemberRead::Fail(e) => MemberRead::Fail(e),
            MemberRead::Excluded => MemberRead::Excluded,
        }
    }
}

/// Reading the fields, then the methods, at `pos`: each a two-byte count, then
/// the members.
pub open spec fn read_members_at(b: Seq<u8>, pos: int, p: Seq<Option<EntryModel>>, bsm: Option<Seq<BootstrapModel>>,
    fi: FieldInterests, mi: MethodInterests, cdi: CodeInterests, c: ClassModel) -> MemberRead<ClassModel>
{
    if pos + 2 > b.len() {
        MemberRead::Fail(Error::UnexpectedEnd)
    } else {
        match read_fields_from(b, pos + 2, be_u16(b, pos) as int, p, fi, c) {
            MemberRead::Read(c2, q) => if q + 2 > b.len() {
                MemberRead::Fail(Error::UnexpectedEnd)
            } else {
                read_methods_from(b, q + 2, be_u16(b, q) as int, p, bsm, mi, cdi, c2)
            },
            other => other,
        }
    }
}

/// The class described by a header, with no members or attributes yet.
pub open spec fn initial_state(h: HeaderModel) -> ClassState {
    ClassState {
        class: new_class(h.version, h.access, h.this_class, h.super_class, h.interfaces),
        bsm: None,
        had_record: false,
    }
}

/// Reading a class file at `pos`: the header; the fields and methods are
/// skipped; the attributes of the class are read, as `ci` asks; then the fields
/// and methods are read, as `fi`, `mi` and `cdi` ask. The position after it is
/// the end of the attributes of the class.
pub open spec fn read_class_at(b: Seq<u8>, pos: int, ci: ClassInterests, fi: FieldInterests, mi: MethodInterests,
    cdi: CodeInterests) -> MemberRead<ClassModel>
{
    match read_header_at(b, pos) {
        Err(e) => MemberRead::Fail(e),
        Ok((h, members)) => match skip_members_at(b, members) {
            Err(e) => MemberRead::Fail(e),
            Ok(p1) => match skip_members_at(b, p1) {
                Err(e) => MemberRead::Fail(e),
                Ok(p2) => if p2 + 2 > b.len() {
                    MemberRead::Fail(Error::UnexpectedEnd)
                } else {
                    match class_attrs(b, p2 + 2, be_u16(b, p2) as int, h.pool, ci, initial_state(h)) {
                        Err(e) => MemberRead::Fail(e),
                        Ok((st, end)) => match read_members_at(b, members, h.pool, st.bsm, fi, mi, cdi, st.class) {
                            MemberRead::Read(c, _) => MemberRead::Read(c, end),
                            other => other,
                        },
                    }
                },
            },
        },
    }
}

/// Reads one attribute of a record component into `rc`.
fn read_record_attribute(reader: &mut ClassReader, pool: &PoolRead, rc: RecordComponent) -> (r: Result<RecordComponent, Error>)
    ensures
        final(reader).data() == old(reader).data(),
        match record_attr_at(old(reader).data(), old(reader).position() as int, pool@, rc@) {
            Ok((m, next)) => r matches Ok(x) && x@ == m && final(reader).position() == next,
            Err(e) => r is Err && r->Err_0 == e,
        },
{
    let name = pool.get_utf8(reader.read_u16()?)?;
    let length = reader.read_u32()?;
    let mut rc = rc;
    if name.equals_str("Signature") {
        let signature = FieldSignature::from_inner_unchecked(pool.get_utf8(reader.read_u16()?)?);
        if rc.signature.is_some() {
            return Err(Error::DuplicateAttribute);
        }
        rc.signature = Some(signature);
        Ok(rc)
    } else if name.equals_str("RuntimeVisibleAnnotations") {
        let mut annotations = read_annotations(reader, pool)?;
        let ghost before = rc.runtime_visible_annotations@;
        let ghost added = annotations@;
        rc.runtime_visible_annotations.append(&mut annotations);
        assert(annotations_view(rc.runtime_visible_annotations@) =~= annotations_view(before) + annotations_view(added));
        Ok(rc)
    } else if name.equals_str("RuntimeInvisibleAnnotations") {
        let mut annotations = read_annotations(reader, pool)?;
        let ghost before = rc.runtime_invisible_annotations@;
        let ghost added = annotations@;
        rc.runtime_invisible_annotations.append(&mut annotations);
        assert(annotations_view(rc.runtime_invisible_annotations@) =~= annotations_view(before) + annotations_view(added));
        Ok(rc)
    } else if name.equals_str("RuntimeVisibleTypeAnnotations") || name.equals_str("RuntimeInvisibleTypeAnnotations") {
        reader.skip(length as i64)?;
        Ok(rc)
    } else {
        let bytes = reader.read_u8_vec(length as usize)?;
        let ghost before = rc.attributes@.map_values(|a: Attribute| a@);
        let attribute = Attribute { name, bytes };
        let ghost av = attribute@;
        rc.attributes.push(attribute);
        assert(rc.attributes@.map_values(|a: Attribute| a@) =~= before.push(av));
        Ok(rc)
    }
}

/// Reads a record component: its name, its descriptor, then its attributes.
/// Type annotations are skipped.
fn read_record_component(reader: &mut ClassReader, pool: &PoolRead) -> (r: Result<RecordComponent, Error>)
    ensures
        final(reader).data() == old(reader).data(),
        match read_record_at(old(reader).data(), old(reader).position() as int, pool@) {
            Ok((m, end)) => r matches Ok(x) && x@ == m && final(reader).position() == end,
            Err(e) => r is Err && r->Err_0 == e,
        },
{
    let ghost b = reader.data();
    let name = RecordName::from_inner_unchecked(pool.get_utf8(reader.read_u16()?)?);
    let descriptor = FieldDescriptor::try_from(pool.get_utf8(reader.read_u16()?)?)?;
    let mut rc = RecordComponent::new(name, descriptor);
    let n = reader.read_u16()?;
    let mut i: u16 = 0;
    let ghost whole = read_record_at(b, old(reader).position() as int, pool@);
    while i < n
        invariant
            reader.data() == b,
            b == old(reader).data(),
            i <= n,
            whole == read_record_at(old(reader).data(), old(reader).position() as int, pool@),
            whole == record_attrs(b, reader.position() as int, n - i, pool@, rc@),
        decreases n - i,
    {
        rc = match read_record_attribute(reader, pool, rc) {
            Ok(x) => x,
            Err(e) => { return Err(e); },
        };
        i = i + 1;
    }
    Ok(rc)
}

/// The models of record components.
pub open spec fn records_view(v: Seq<RecordComponent>) -> Seq<RecordModel> {
    v.map_values(|c: RecordComponent| c@)
}

/// Reads the contents of a `Record` attribute: a two-byte count, then the components.
fn read_record_components(reader: &mut ClassReader, pool: &PoolRead) -> (r: Result<Vec<RecordComponent>, Error>)
    ensures
        final(reader).data() == old(reader).data(),
        match read_counted(old(reader).data(), old(reader).position() as int, record_item(old(reader).data(), pool@)) {
            Ok((v, end)) => r matches Ok(x) && records_view(x@) == v && final(reader).position() == end,
            Err(e) => r is Err && r == Err::<Vec<RecordComponent>, Error>(e),
        },
{
    let ghost b = reader.data();
    let ghost item = record_item(b, pool@);
    let n = reader.read_u16()?;
    let ghost whole = read_list(reader.position() as int, n as int, item);
    let mut v: Vec<RecordComponent> = Vec::new();
    let mut i: u16 = 0;
    assert(whole == prepend_list(records_view(v@), whole)) by {
        if let Ok((xs, end)) = whole {
            assert(records_view(v@) + xs =~= xs);
        }
    }
    while i < n
        invariant
            reader.data() == b,
            b == old(reader).data(),
            item == record_item(b, pool@),
            i <= n,
            whole == read_counted(old(reader).data(), old(reader).position() as int, record_item(old(reader).data(), pool@)),
            whole == prepend_list(records_view(v@), read_list(reader.position() as int, n - i, item)),
        decreases n - i,
    {
        let rc = match read_record_component(reader, pool) {
            Ok(x) => x,
            Err(e) => { return Err(e); },
        };
        let ghost before = records_view(v@);
        let ghost cv = rc@;
        v.push(rc);
        proof {
            assert(records_view(v@) =~= before.push(cv));
            if let Ok((xs, end)) = read_list(reader.position() as int, n - i - 1, item) {
                assert(before + (seq![cv] + xs) =~= records_view(v@) + xs);
            }
        }
        i = i + 1;
    }
    proof {
        assert(records_view(v@) + Seq::<RecordModel>::empty() =~= records_view(v@));
    }
    Ok(v)
}

/// Reads an entry of an `InnerClasses` attribute.
fn read_inner_class(reader: &mut ClassReader, pool: &PoolRead) -> (r: Result<InnerClass, Error>)
    ensures
        final(reader).data() == old(reader).data(),
        match (inner_class_item(old(reader).data(), pool@))(old(reader).position() as int) {
            Ok((m, end)) => r matches Ok(x) && x@ == m && final(reader).position() == end,
            Err(e) => r is Err && r->Err_0 == e,
        },
{
    let inner_class = pool.get_class(reader.read_u16()?)?;
    let outer_index = reader.read_u16()?;
    let outer_class = if outer_index == 0 {
        None
    } else {
        Some(pool.get_class(outer_index)?)
    };
    let name_index = reader.read_u16()?;
    let inner_name = if name_index == 0 {
        None
    } else {
        Some(pool.get_utf8(name_index)?)
    };
    let flags = InnerClassFlags::from(reader.read_u16()?);
    Ok(InnerClass { inner_class, outer_class, inner_name, flags })
}

/// Reads the contents of an `InnerClasses` attribute: a two-byte count, then the entries.
fn read_inner_classes(reader: &mut ClassReader, pool: &PoolRead) -> (r: Result<Vec<InnerClass>, Error>)
    ensures
        final(reader).data() == old(reader).data(),
        match read_counted(old(reader).data(), old(reader).position() as int, inner_class_item(old(reader).data(), pool@)) {
            Ok((v, end)) => r matches Ok(x) && inner_classes_view(x@) == v && final(reader).position() == end,
            Err(e) => r is Err && r == Err::<Vec<InnerClass>, Error>(e),
        },
{
    let ghost b = reader.data();
    let ghost item = inner_class_item(b, pool@);
    let n = reader.read_u16()?;
    let ghost whole = read_list(reader.position() as int, n as int, item);
    let mut v: Vec<InnerClass> = Vec::new();
    let mut i: u16 = 0;
    assert(whole == prepend_list(inner_classes_view(v@), whole)) by {
        if let Ok((xs, end)) = whole {
            assert(inner_classes_view(v@) + xs =~= xs);
        }
    }
    while i < n
        invariant
            reader.data() == b,
            b == old(reader).data(),
            item == inner_class_item(b, pool@),
            i <= n,
            whole == read_counted(old(reader).data(), old(reader).position() as int, inner_class_item(old(reader).data(), pool@)),
            whole == prepend_list(inner_classes_view(v@), read_list(reader.position() as int, n - i, item)),
        decreases n - i,
    {
        let c = match read_inner_class(reader, pool) {
            Ok(x) => x,
            Err(e) => { return Err(e); },
        };
        let ghost before = inner_classes_view(v@);
        let ghost cv = c@;
        v.push(c);
        proof {
            assert(inner_classes_view(v@) =~= before.push(cv));
            if let Ok((xs, end)) = read_list(reader.position() as int, n - i - 1, item) {
                assert(before + (seq![cv] + xs) =~= inner_classes_view(v@) + xs);
            }
        }
        i = i + 1;
    }
    proof {
        assert(inner_classes_view(v@) + Seq::<InnerClassModel>::empty() =~= inner_classes_view(v@));
    }
    Ok(v)
}

/// Reads the contents of an `EnclosingMethod` attribute: the class, then the
/// name and descriptor of the method, if there is one.
fn read_enclosing_method(reader: &mut ClassReader, pool: &PoolRead) -> (r: Result<EnclosingMethod, Error>)
    ensures
        final(reader).data() == old(reader).data(),
        match read_enclosing_at(old(reader).data(), old(reader).position() as int, pool@) {
            Ok((m, end)) => r matches Ok(x) && x@ == m && final(reader).position() == end,
            Err(e) => r is Err && r->Err_0 == e,
        },
{
    let class = pool.get_class(reader.read_u16()?)?;
    let index = reader.read_u16()?;
    let method = if index == 0 {
        None
    } else {
        let (n, d) = pool.get_name_and_type(index)?;
        let name = MethodName::try_from(n)?;
        let desc = MethodDescriptor::try_from(d)?;
        Some(MethodNameAndDesc { name, desc })
    };
    Ok(EnclosingMethod { class, method })
}

/// Reads a two-byte count, then that many indices of `Package` entries.
fn read_package_names(reader: &mut ClassReader, pool: &PoolRead) -> (r: Result<Vec<PackageName>, Error>)
    ensures
        final(reader).data() == old(reader).data(),
        match read_counted(old(reader).data(), old(reader).position() as int, package_item(old(reader).data(), pool@)) {
            Ok((v, end)) => r matches Ok(x) && package_names_view(x@) == v && final(reader).position() == end,
            Err(e) => r is Err && r == Err::<Vec<PackageName>, Error>(e),
        },
{
    let ghost b = reader.data();
    let ghost item = package_item(b, pool@);
    let n = reader.read_u16()?;
    let ghost whole = read_list(reader.position() as int, n as int, item);
    let mut v: Vec<PackageName> = Vec::new();
    let mut i: u16 = 0;
    assert(whole == prepend_list(package_names_view(v@), whole)) by {
        if let Ok((xs, end)) = whole {
            assert(package_names_view(v@) + xs =~= xs);
        }
    }
    while i < n
        invariant
            reader.data() == b,
            b == old(reader).data(),
            item == package_item(b, pool@),
            i <= n,
            whole == read_counted(old(reader).data(), old(reader).position() as int, package_item(old(reader).data(), pool@)),
            whole == prepend_list(package_names_view(v@), read_list(reader.position() as int, n - i, item)),
        decreases n - i,
    {
        let ghost pos = reader.position() as int;
        let index = match reader.read_u16() {
            Ok(x) => x,
            Err(e) => { return Err(e); },
        };
        let name = match pool.get_package(index) {
            Ok(x) => x,
            Err(e) => { return Err(e); },
        };
        let ghost before = package_names_view(v@);
        let ghost nv = name@;
        v.push(name);
        proof {
            assert(package_names_view(v@) =~= before.push(nv));
            if let Ok((xs, end)) = read_list(pos + 2, n - i - 1, item) {
                assert(before + (seq![nv] + xs) =~= package_names_view(v@) + xs);
            }
        }
        i = i + 1;
    }
    proof {
        assert(package_names_view(v@) + Seq::<Seq<u32>>::empty() =~= package_names_view(v@));
    }
    Ok(v)
}

/// A class whose attributes are being read, with its bootstrap methods once
/// read, and whether a `Record` attribute was seen.
struct ClassBuild {
    class: ClassFile,
    bootstrap_methods: Option<Vec<BootstrapMethodRead>>,
    had_record: bool,
}

impl ClassBuild {
    /// The model of what is known so far.
    spec fn state(&self) -> ClassState {
        ClassState { class: self.class@, bsm: bootstrap_view(self.bootstrap_methods), had_record: self.had_record }
    }
}

/// Reads the contents of one of the module, nest, record, bootstrap method or
/// unknown attributes of a class.
#[verifier::rlimit(40)]
fn read_class_attribute_rest(reader: &mut ClassReader, pool: &PoolRead, interests: &ClassInterests, name: JavaString,
    length: u32, st: ClassBuild) -> (r: Result<ClassBuild, Error>)
    ensures
        final(reader).data() == old(reader).data(),
        match class_attr_rest(old(reader).data(), old(reader).position() as int, length as int, name@, pool@, *interests,
            st.state()) {
            Ok((s, next)) => r matches Ok(x) && x.state() == s && final(reader).position() == next,
            Err(e) => r is Err && r->Err_0 == e,
        },
{
    reveal(class_attr_rest);
    let mut st = st;
    if name.equals_str("Module") {
        if !interests.module {
            reader.skip(length as i64)?;
            return Ok(st);
        }
        let module = read_module(reader, pool)?;
        if st.class.module.is_some() {
            return Err(Error::DuplicateAttribute);
        }
        st.class.module = Some(module);
        Ok(st)
    } else if name.equals_str("ModulePackages") {
        if !interests.module_packages {
            reader.skip(length as i64)?;
            return Ok(st);
        }
        let packages = read_package_names(reader, pool)?;
        if st.class.module_packages.is_some() {
            return Err(Error::DuplicateAttribute);
        }
        st.class.module_packages = Some(packages);
        Ok(st)
    } else if name.equals_str("ModuleMainClass") {
        if !interests.module_main_class {
            reader.skip(length as i64)?;
            return Ok(st);
        }
        let class = pool.get_class(reader.read_u16()?)?;
        if st.class.module_main_class.is_some() {
            return Err(Error::DuplicateAttribute);
        }
        st.class.module_main_class = Some(class);
        Ok(st)
    } else if name.equals_str("NestHost") {
        if !interests.nest_host {
            reader.skip(length as i64)?;
            return Ok(st);
        }
        let class = pool.get_class(reader.read_u16()?)?;
        if st.class.nest_host_class.is_some() {
            return Err(Error::DuplicateAttribute);
        }
        st.class.nest_host_class = Some(class);
        Ok(st)
    } else if name.equals_str("NestMembers") {
        if !interests.nest_members {
            reader.skip(length as i64)?;
            return Ok(st);
        }
        let members = read_class_names(reader, pool)?;
        if st.class.nest_members.is_some() {
            return Err(Error::DuplicateAttribute);
        }
        st.class.nest_members = Some(members);
        Ok(st)
    } else if name.equals_str("PermittedSubclasses") {
        if !interests.permitted_subclasses {
            reader.skip(length as i64)?;
            return Ok(st);
        }
        let subclasses = read_class_names(reader, pool)?;
        if st.class.permitted_subclasses.is_some() {
            return Err(Error::DuplicateAttribute);
        }
        st.class.permitted_subclasses = Some(subclasses);
        Ok(st)
    } else if name.equals_str("Record") {
        if !interests.record {
            reader.skip(length as i64)?;
            return Ok(st);
        }
        if st.had_record {
            return Err(Error::DuplicateAttribute);
        }
        st.had_record = true;
        let mut components = read_record_components(reader, pool)?;
        let ghost before = st.class.record_components@;
        let ghost added = components@;
        st.class.record_components.append(&mut components);
        assert(st.class.record_components@.map_values(|c: RecordComponent| c@)
            =~= before.map_values(|c: RecordComponent| c@) + added.map_values(|c: RecordComponent| c@));
        Ok(st)
    } else if name.equals_str("BootstrapMethods") {
        let methods = read_bootstrap_methods(reader, pool)?;
        if st.bootstrap_methods.is_some() {
            return Err(Error::DuplicateAttribute);
        }
        st.bootstrap_methods = Some(methods);
        Ok(st)
    } else if !interests.unknown_attributes {
        reader.skip(length as i64)?;
        Ok(st)
    } else {
        let bytes = reader.read_u8_vec(length as usize)?;
        let ghost before = st.class.attributes@.map_values(|a: Attribute| a@);
        let attribute = Attribute { name, bytes };
        let ghost av = attribute@;
        st.class.attributes.push(attribute);
        assert(st.class.attributes@.map_values(|a: Attribute| a@) =~= before.push(av));
        Ok(st)
    }
}

/// Reads one attribute of a class into `st`, as `interests` asks.
#[verifier::spinoff_prover]
#[verifier::rlimit(80)]
fn read_class_attribute(reader: &mut ClassReader, pool: &PoolRead, interests: &ClassInterests, st: ClassBuild)
    -> (r: Result<ClassBuild, Error>)
    ensures
        final(reader).data() == old(reader).data(),
        match class_attr_at(old(reader).data(), old(reader).position() as int, pool@, *interests, st.state()) {
            Ok((s, next)) => r matches Ok(x) && x.state() == s && final(reader).position() == next,
            Err(e) => r is Err && r->Err_0 == e,
        },
{
    reveal(class_attr);
    let name = pool.get_utf8(reader.read_u16()?)?;
    let length = reader.read_u32()?;
    let mut st = st;
    if name.equals_str("Deprecated") {
        st.class.has_deprecated_attribute = true;
        Ok(st)
    } else if name.equals_str("Synthetic") {
        st.class.has_synthetic_attribute = true;
        Ok(st)
    } else if name.equals_str("InnerClasses") {
        if !interests.inner_classes {
            reader.skip(length as i64)?;
            return Ok(st);
        }
        let inner_classes = read_inner_classes(reader, pool)?;
        if st.class.inner_classes.is_some() {
            return Err(Error::DuplicateAttribute);
        }
        st.class.inner_classes = Some(inner_classes);
        Ok(st)
    } else if name.equals_str("EnclosingMethod") {
        if !interests.enclosing_method {
            reader.skip(length as i64)?;
            return Ok(st);
        }
        let enclosing_method = read_enclosing_method(reader, pool)?;
        if st.class.enclosing_method.is_some() {
            return Err(Error::DuplicateAttribute);
        }
        st.class.enclosing_method = Some(enclosing_method);
        Ok(st)
    } else if name.equals_str("Signature") {
        if !interests.signature {
            reader.skip(length as i64)?;
            return Ok(st);
        }
        let signature = ClassSignature::from_inner_unchecked(pool.get_utf8(reader.read_u16()?)?);
        if st.class.signature.is_some() {
            return Err(Error::DuplicateAttribute);
        }
        st.class.signature = Some(signature);
        Ok(st)
    } else if name.equals_str("SourceFile") {
        if !interests.source_file {
            reader.skip(length as i64)?;
            return Ok(st);
        }
        let source_file = pool.get_utf8(reader.read_u16()?)?;
        if st.class.source_file.is_some() {
            return Err(Error::DuplicateAttribute);
        }
        st.class.source_file = Some(source_file);
        Ok(st)
    } else if name.equals_str("SourceDebugExtension") {
        if !interests.source_debug_extension {
            reader.skip(length as i64)?;
            return Ok(st);
        }
        let extension = from_vec_to_string(reader.read_u8_vec(length as usize)?)?;
        if st.class.source_debug_extension.is_some() {
            return Err(Error::DuplicateAttribute);
        }
        st.class.source_debug_extension = Some(extension);
        Ok(st)
    } else {
        read_class_annotation_attribute(reader, pool, interests, name, length, st)
    }
}

/// Reads the contents of one of the annotation attributes of a class, or goes
/// on to [`read_class_attribute_rest`].
#[verifier::rlimit(40)]
fn read_class_annotation_attribute(reader: &mut ClassReader, pool: &PoolRead, interests: &ClassInterests,
    name: JavaString, length: u32, st: ClassBuild) -> (r: Result<ClassBuild, Error>)
    ensures
        final(reader).data() == old(reader).data(),
        match class_attr_annotations(old(reader).data(), old(reader).position() as int, length as int, name@, pool@,
            *interests, st.state()) {
            Ok((s, next)) => r matches Ok(x) && x.state() == s && final(reader).position() == next,
            Err(e) => r is Err && r->Err_0 == e,
        },
{
    reveal(class_attr_annotations);
    let mut st = st;
    if name.equals_str("RuntimeVisibleAnnotations") {
        if !interests.runtime_visible_annotations {
            reader.skip(length as i64)?;
            return Ok(st);
        }
        let mut annotations = read_annotations(reader, pool)?;
        let ghost before = st.class.runtime_visible_annotations@;
        let ghost added = annotations@;
        st.class.runtime_visible_annotations.append(&mut annotations);
        assert(annotations_view(st.class.runtime_visible_annotations@) =~= annotations_view(before) + annotations_view(added));
        Ok(st)
    } else if name.equals_str("RuntimeInvisibleAnnotations") {
        if !interests.runtime_invisible_annotations {
            reader.skip(length as i64)?;
            return Ok(st);
        }
        let mut annotations = read_annotations(reader, pool)?;
        let ghost before = st.class.runtime_invisible_annotations@;
        let ghost added = annotations@;
        st.class.runtime_invisible_annotations.append(&mut annotations);
        assert(annotations_view(st.class.runtime_invisible_annotations@) =~= annotations_view(before) + annotations_view(added));
        Ok(st)
    } else if name.equals_str("RuntimeVisibleTypeAnnotations") {
        if !interests.runtime_visible_type_annotations {
            reader.skip(length as i64)?;
            return Ok(st);
        }
        let mut annotations = read_class_type_annotations(reader, pool)?;
        let ghost before = st.class.runtime_visible_type_annotations@;
        let ghost added = annotations@;
        st.class.runtime_visible_type_annotations.append(&mut annotations);
        assert(type_annotations_view(st.class.runtime_visible_type_annotations@)
            =~= type_annotations_view(before) + type_annotations_view(added));
        Ok(st)
    } else if name.equals_str("RuntimeInvisibleTypeAnnotations") {
        if !interests.runtime_invisible_type_annotations {
            reader.skip(length as i64)?;
            return Ok(st);
        }
        let mut annotations = read_class_type_annotations(reader, pool)?;
        let ghost before = st.class.runtime_invisible_type_annotations@;
        let ghost added = annotations@;
        st.class.runtime_invisible_type_annotations.append(&mut annotations);
        assert(type_annotations_view(st.class.runtime_invisible_type_annotations@)
            =~= type_annotations_view(before) + type_annotations_view(added));
        Ok(st)
    } else {
        read_class_attribute_rest(reader, pool, interests, name, length, st)
    }
}

/// Reads a class file from the position of `reader`: the header, then the
/// attributes of the class as `interests` asks, then the fields and methods as
/// `field_interests`, `method_interests` and `code_interests` ask. The reader
/// is left after the attributes of the class, the end of the class file.
///
/// Type annotations are skipped, wherever they stand.
pub fn read_class_from(reader: &mut ClassReader, interests: &ClassInterests, field_interests: &FieldInterests,
    method_interests: &MethodInterests, code_interests: &CodeInterests) -> (r: Result<ClassFile, Error>)
    requires
        !(read_class_at(old(reader).data(), old(reader).position() as int, *interests, *field_interests,
            *method_interests, *code_interests) is Excluded),
    ensures
        final(reader).data() == old(reader).data(),
        match read_class_at(old(reader).data(), old(reader).position() as int, *interests, *field_interests,
            *method_interests, *code_interests) {
            MemberRead::Read(c, end) => r matches Ok(x) && x@ == c && final(reader).position() == end,
            MemberRead::Fail(e) => r is Err && r->Err_0 == e,
            MemberRead::Excluded => false,
        },
{
    let ghost b = reader.data();
    let ghost pos0 = reader.position() as int;
    let ghost whole = read_class_at(b, pos0, *interests, *field_interests, *method_interests, *code_interests);
    let header = read_class_header(reader)?;
    let ghost h = header@;
    let members = reader.marker();
    skip_members(reader)?;
    skip_members(reader)?;
    let pool = header.pool;
    let class = ClassFile::new(header.version, header.access, header.this_class, header.super_class, header.interfaces);
    let mut st = ClassBuild { class, bootstrap_methods: None, had_record: false };
    assert(st.state() == initial_state(h)) by {
        assert(class_names_view(header.interfaces@) =~= h.interfaces);
    }
    let n = reader.read_u16()?;
    let mut i: u16 = 0;
    let ghost attrs = class_attrs(b, reader.position() as int, n as int, pool@, *interests, st.state());
    assert(whole == match attrs {
        Err(e) => MemberRead::Fail(e),
        Ok((s, end)) => match read_members_at(b, members as int, h.pool, s.bsm, *field_interests, *method_interests,
            *code_interests, s.class) {
            MemberRead::Read(c, _) => MemberRead::Read(c, end),
            other => other,
        },
    });
    while i < n
        invariant
            reader.data() == b,
            b == old(reader).data(),
            pos0 == old(reader).position(),
            whole == read_class_at(old(reader).data(), old(reader).position() as int, *interests, *field_interests,
                *method_interests, *code_interests),
            whole == match attrs {
                Err(e) => MemberRead::Fail(e),
                Ok((s, end)) => match read_members_at(b, members as int, h.pool, s.bsm, *field_interests,
                    *method_interests, *code_interests, s.class) {
                    MemberRead::Read(c, _) => MemberRead::Read(c, end),
                    other => other,
                },
            },
            i <= n,
            attrs == class_attrs(b, reader.position() as int, n - i, pool@, *interests, st.state()),
        decreases n - i,
    {
        st = match read_class_attribute(reader, &pool, interests, st) {
            Ok(x) => x,
            Err(e) => { return Err(e); },
        };
        i = i + 1;
    }
    let end = reader.marker();
    let ghost c0 = st.class@;
    let ghost bsm = bootstrap_view(st.bootstrap_methods);
    assert(attrs == Ok::<(ClassState, int), Error>((st.state(), end as int)));
    reader.goto(members);
    let ghost outcome = read_members_at(b, members as int, pool@, bsm, *field_interests, *method_interests,
        *code_interests, c0);
    assert(whole == match outcome {
        MemberRead::Read(c, _) => MemberRead::Read(c, end as int),
        other => other,
    });
    let mut class = st.class;
    let bootstrap_methods = st.bootstrap_methods;
    let fields_count = reader.read_u16()?;
    let mut i: u16 = 0;
    while i < fields_count
        invariant
            reader.data() == b,
            b == old(reader).data(),
            whole == read_class_at(old(reader).data(), old(reader).position() as int, *interests, *field_interests,
                *method_interests, *code_interests),
            whole == match outcome {
                MemberRead::Read(c, _) => MemberRead::Read(c, end as int),
                other => other,
            },
            members + 2 <= b.len(),
            fields_count == be_u16(b, members as int),
            outcome == read_members_at(b, members as int, pool@, bsm, *field_interests, *method_interests,
                *code_interests, c0),
            i <= fields_count,
            read_fields_from(b, members + 2, fields_count as int, pool@, *field_interests, c0)
                == read_fields_from(b, reader.position() as int, fields_count - i, pool@, *field_interests, class@),
        decreases fields_count - i,
    {
        let field = match read_field(reader, &pool, field_interests) {
            Ok(x) => x,
            Err(e) => { return Err(e); },
        };
        let ghost before = class.fields@.map_values(|f: Field| f@);
        let ghost fv = field@;
        class.fields.push(field);
        assert(class.fields@.map_values(|f: Field| f@) =~= before.push(fv));
        i = i + 1;
    }
    assert(!(outcome is Excluded));
    let methods_count = reader.read_u16()?;
    let mut i: u16 = 0;
    assert(outcome == read_methods_from(b, reader.position() as int, methods_count as int, pool@, bsm, *method_interests,
        *code_interests, class@));
    while i < methods_count
        invariant
            reader.data() == b,
            b == old(reader).data(),
            whole == read_class_at(old(reader).data(), old(reader).position() as int, *interests, *field_interests,
                *method_interests, *code_interests),
            whole == match outcome {
                MemberRead::Read(c, _) => MemberRead::Read(c, end as int),
                other => other,
            },
            i <= methods_count,
            bsm == bootstrap_view(bootstrap_methods),
            outcome == read_methods_from(b, reader.position() as int, methods_count - i, pool@, bsm, *method_interests,
                *code_interests, class@),
            !(outcome is Excluded),
        decreases methods_count - i,
    {
        let method = match read_method(reader, &pool, &bootstrap_methods, method_interests, code_interests) {
            Ok(x) => x,
            Err(e) => { return Err(e); },
        };
        let ghost before = class.methods@.map_values(|m: Method| m@);
        let ghost mv = method@;
        class.methods.push(method);
        assert(class.methods@.map_values(|m: Method| m@) =~= before.push(mv));
        i = i + 1;
    }
    reader.goto(end);
    Ok(class)
}

/// Reads a class file from `bytes`, with every attribute that the library
/// interprets.
pub fn read_class(bytes: Vec<u8>) -> (r: Result<ClassFile, Error>)
    requires
        !(read_class_at(bytes@, 0, every_class_attribute(), every_field_attribute(), every_method_attribute(),
            every_code_attribute()) is Excluded),
    ensures
        match read_class_at(bytes@, 0, every_class_attribute(), every_field_attribute(), every_method_attribute(),
            every_code_attribute()) {
            MemberRead::Read(c, _) => r matches Ok(x) && x@ == c,
            MemberRead::Fail(e) => r is Err && r->Err_0 == e,
            MemberRead::Excluded => false,
        },
{
    let mut reader = ClassReader::new(bytes);
    let interests = ClassInterests::all();
    let field_interests = FieldInterests::all();
    let method_interests = MethodInterests::all();
    let code_interests = CodeInterests::all();
    read_class_from(&mut reader, &interests, &field_interests, &method_interests, &code_interests)
}

/// An entry of the `InnerClasses` attribute is the pool index of the inner
/// class, that of the outer class (zero for none), that of the inner name
/// (zero for none) and the flags, two bytes each, in that order. The
/// `EnclosingMethod` attribute is the index of the class, then the index of
/// the method's name and type (zero for none).
pub proof fn lemma_inner_class_layout(b: Seq<u8>, pos: int, p: Seq<Option<EntryModel>>)
    requires
        0 <= pos,
        pos + 8 <= b.len(),
    ensures
        ({
            let u0 = (b[pos] * 256 + b[pos + 1]) as u16;
            let u1 = (b[pos + 2] * 256 + b[pos + 3]) as u16;
            let u2 = (b[pos + 4] * 256 + b[pos + 5]) as u16;
            let u3 = (b[pos + 6] * 256 + b[pos + 7]) as u16;
            &&& inner_class_item(b, p)(pos) matches Ok((c, end)) ==> {
                &&& pool_class(p, u0) == Ok::<Seq<u32>, Error>(c.inner_class)
                &&& pool_optional_class(p, u1) == Ok::<Option<Seq<u32>>, Error>(c.outer_class)
                &&& pool_optional_utf8(p, u2) == Ok::<Option<Seq<u32>>, Error>(c.inner_name)
                &&& c.flags == inner_class_flags_of(u3)
                &&& end == pos + 8
            }
            &&& read_enclosing_at(b, pos, p) matches Ok((e, end)) ==> {
                &&& pool_class(p, u0) == Ok::<Seq<u32>, Error>(e.class)
                &&& pool_optional_method(p, u1) == Ok::<Option<(Seq<u32>, Seq<u32>)>, Error>(e.method)
                &&& end == pos + 4
            }
        }),
{
    assert(be_u16(b, pos) == b[pos] * 256 + b[pos + 1]);
    assert(be_u16(b, pos + 2) == b[pos + 2] * 256 + b[pos + 3]);
    assert(be_u16(b, pos + 4) == b[pos + 4] * 256 + b[pos + 5]);
    assert(be_u16(b, pos + 6) == b[pos + 6] * 256 + b[pos + 7]);
}

} // verus!

