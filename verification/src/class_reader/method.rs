//! Reading the methods of a class.
use vstd::prelude::*;
use crate::bytes::{ClassReader, be_u16, be_u32};
use crate::class_reader::bootstrap::{BootstrapMethodRead, BootstrapModel, bootstrap_view};
use crate::class_reader::annotation::{read_annotations, read_annotations_at, read_element_value, read_value_at,
    read_method_type_annotations, read_type_annotations_at, method_target};
use crate::class_reader::code_attribute::{CodeOutcome, attribute_name, read_code, read_code_at};
use crate::tree::annotation::{annotations_view, type_annotations_view};
use crate::class_reader::module::{class_name_item, index_then, pool_optional_utf8, prepend_list, read_class_names, read_counted, read_list};
use crate::class_reader::pool::{EntryModel, PoolRead, pool_utf8};
use crate::error::Error;
use crate::jstring::JavaString;
use crate::tree::attribute::{Attribute, AttributeModel};
use crate::tree::descriptor::valid_method_descriptor;
use crate::tree::member::{Method, MethodModel, ParameterModel, new_method, parameter_view, parameters_view};
use crate::tree::method::{
    MethodAccess, MethodDescriptor, MethodName, MethodParameter, MethodSignature, ParameterFlags, ParameterName,
    method_access_of, parameter_flags_of,
};
use crate::tree::module::class_names_view;
use crate::tree::names::{valid_method_name, valid_unqualified_name};
use crate::visitor::{CodeInterests, MethodInterests};

verus! {

/// The outcome of reading part of a member of a class.
pub ghost enum MemberRead<T> {
    /// The value, and the position after it.
    Read(T, int),
    /// Reading failed.
    Fail(Error),
    /// The code of the member cannot be read without a panic (see [`CodeOutcome::Excluded`]).
    Excluded,
}

/// Reading a method parameter at `pos`: the index of its name (zero for none),
/// which must be an unqualified name, then its flags.
pub open spec fn parameter_item(b: Seq<u8>, p: Seq<Option<EntryModel>>) -> spec_fn(int) -> Result<(ParameterModel, int), Error> {
    |pos: int| if pos + 2 > b.len() {
        Err(Error::UnexpectedEnd)
    } else {
        match pool_optional_utf8(p, be_u16(b, pos)) {
            Err(e) => Err(e),
            Ok(name) => if name matches Some(n) && !valid_unqualified_name(n) {
                Err(Error::InvalidName)
            } else if pos + 4 > b.len() {
                Err(Error::UnexpectedEnd)
            } else {
                Ok((ParameterModel { name, flags: parameter_flags_of(be_u16(b, pos + 2)) }, pos + 4))
            },
        }
    }
}

/// Reading the contents of a `MethodParameters` attribute at `pos`: a one-byte
/// count, then the parameters.
pub open spec fn read_parameters_at(b: Seq<u8>, pos: int, p: Seq<Option<EntryModel>>) -> Result<(Seq<ParameterModel>, int), Error> {
    if pos + 1 > b.len() {
        Err(Error::UnexpectedEnd)
    } else {
        read_list(pos + 1, b[pos] as int, parameter_item(b, p))
    }
}

/// Skipping `length` bytes from `q` on.
pub open spec fn skip_member_attr<T>(st: T, q: int, length: int) -> MemberRead<T> {
    if q + length > usize::MAX {
        MemberRead::Fail(Error::InvalidSeek)
    } else {
        MemberRead::Read(st, q + length)
    }
}

/// Whether a method attribute named `name` is one that is skipped: the
/// parameter annotations.
pub open spec fn skipped_method_attr(name: Seq<u32>) -> bool {
    ||| name == attribute_name("RuntimeVisibleParameterAnnotations")
    ||| name == attribute_name("RuntimeInvisibleParameterAnnotations")
}

/// Reading the contents of the method attribute named `name`, `length` bytes
/// long, at `q`, into the method `st`.
#[verifier::opaque]
pub open spec fn method_attr(b: Seq<u8>, q: int, length: int, name: Seq<u32>, p: Seq<Option<EntryModel>>,
    bsm: Option<Seq<BootstrapModel>>, mi: MethodInterests, ci: CodeInterests, st: MethodModel) -> MemberRead<MethodModel>
{
    if name == attribute_name("Deprecated") {
        MemberRead::Read(MethodModel { has_deprecated_attribute: true, ..st }, q)
    } else if name == attribute_name("Synthetic") {
        MemberRead::Read(MethodModel { has_synthetic_attribute: true, ..st }, q)
    } else if name == attribute_name("Code") {
        if !mi.code {
            skip_member_attr(st, q, length)
        } else {
            match read_code_at(b, q, p, bsm, ci) {
                CodeOutcome::Read(c, end) => if st.code is Some {
                    MemberRead::Fail(Error::DuplicateAttribute)
                } else {
                    MemberRead::Read(MethodModel { code: Some(c), ..st }, end)
                },
                CodeOutcome::Fail(e) => MemberRead::Fail(e),
                CodeOutcome::Excluded => MemberRead::Excluded,
            }
        }
    } else if name == attribute_name("Exceptions") {
        if !mi.exceptions {
            skip_member_attr(st, q, length)
        } else {
            match read_counted(b, q, class_name_item(b, p)) {
                Ok((v, end)) => if st.exceptions is Some {
                    MemberRead::Fail(Error::DuplicateAttribute)
                } else {
                    MemberRead::Read(MethodModel { exceptions: Some(v), ..st }, end)
                },
                Err(e) => MemberRead::Fail(e),
            }
        }
    } else if name == attribute_name("Signature") {
        if !mi.signature {
            skip_member_attr(st, q, length)
        } else {
            match index_then(b, q, pool_utf8(p, be_u16(b, q))) {
                Ok((s, end)) => if st.signature is Some {
                    MemberRead::Fail(Error::DuplicateAttribute)
                } else {
                    MemberRead::Read(MethodModel { signature: Some(s), ..st }, end)
                },
                Err(e) => MemberRead::Fail(e),
            }
        }
    } else {
        method_attr_rest(b, q, length, name, p, mi, st)
    }
}

/// The second half of [`method_attr`]: the annotations, the default value of
/// an annotation element, the skipped attributes, the parameters and unknown
/// attributes.
#[verifier::opaque]
pub open spec fn method_attr_rest(b: Seq<u8>, q: int, length: int, name: Seq<u32>, p: Seq<Option<EntryModel>>,
    mi: MethodInterests, st: MethodModel) -> MemberRead<MethodModel>
{
    if name == attribute_name("RuntimeVisibleAnnotations") {
        if !mi.runtime_visible_annotations {
            skip_member_attr(st, q, length)
        } else {
            match read_annotations_at(b, q, p) {
                Ok((v, end)) => MemberRead::Read(MethodModel {
                    runtime_visible_annotations: st.runtime_visible_annotations + v,
                    ..st
                }, end),
                Err(e) => MemberRead::Fail(e),
            }
        }
    } else if name == attribute_name("RuntimeInvisibleAnnotations") {
        if !mi.runtime_invisible_annotations {
            skip_member_attr(st, q, length)
        } else {
            match read_annotations_at(b, q, p) {
                Ok((v, end)) => MemberRead::Read(MethodModel {
                    runtime_invisible_annotations: st.runtime_invisible_annotations + v,
                    ..st
                }, end),
                Err(e) => MemberRead::Fail(e),
            }
        }
    } else if name == attribute_name("RuntimeVisibleTypeAnnotations") {
        if !mi.runtime_visible_type_annotations {
            skip_member_attr(st, q, length)
        } else {
            match read_type_annotations_at(b, q, p, method_target()) {
                Ok((v, end)) => MemberRead::Read(MethodModel {
                    runtime_visible_type_annotations: st.runtime_visible_type_annotations + v,
                    ..st
                }, end),
                Err(e) => MemberRead::Fail(e),
            }
        }
    } else if name == attribute_name("RuntimeInvisibleTypeAnnotations") {
        if !mi.runtime_invisible_type_annotations {
            skip_member_attr(st, q, length)
        } else {
            match read_type_annotations_at(b, q, p, method_target()) {
                Ok((v, end)) => MemberRead::Read(MethodModel {
                    runtime_invisible_type_annotations: st.runtime_invisible_type_annotations + v,
                    ..st
                }, end),
                Err(e) => MemberRead::Fail(e),
            }
        }
    } else if name == attribute_name("AnnotationDefault") {
        if !mi.annotation_default {
            skip_member_attr(st, q, length)
        } else {
            match read_value_at(b, q, p) {
                Ok((v, end)) => MemberRead::Read(MethodModel { annotation_default: Some(v), ..st }, end),
                Err(e) => MemberRead::Fail(e),
            }
        }
    } else if skipped_method_attr(name) {
        skip_member_attr(st, q, length)
    } else if name == attribute_name("MethodParameters") {
        if !mi.method_parameters {
            skip_member_attr(st, q, length)
        } else {
            match read_parameters_at(b, q, p) {
                Ok((v, end)) => if st.method_parameters is Some {
                    MemberRead::Fail(Error::DuplicateAttribute)
                } else {
                    MemberRead::Read(MethodModel { method_parameters: Some(v), ..st }, end)
                },
                Err(e) => MemberRead::Fail(e),
            }
        }
    } else if !mi.unknown_attributes {
        skip_member_attr(st, q, length)
    } else if q + length > b.len() {
        MemberRead::Fail(Error::UnexpectedEnd)
    } else {
        MemberRead::Read(MethodModel {
            attributes: st.attributes.push(AttributeModel { name, bytes: b.subrange(q, q + length) }),
            ..st
        }, q + length)
    }
}

/// Reading one method attribute at `pos`: a two-byte name index and a
/// four-byte length, then its contents.
pub open spec fn method_attr_at(b: Seq<u8>, pos: int, p: Seq<Option<EntryModel>>, bsm: Option<Seq<BootstrapModel>>,
    mi: MethodInterests, ci: CodeInterests, st: MethodModel) -> MemberRead<MethodModel>
{
    if pos + 2 > b.len() {
        MemberRead::Fail(Error::UnexpectedEnd)
    } else {
        match pool_utf8(p, be_u16(b, pos)) {
            Err(e) => MemberRead::Fail(e),
            Ok(name) => if pos + 6 > b.len() {
                MemberRead::Fail(Error::UnexpectedEnd)
            } else {
                method_attr(b, pos + 6, be_u32(b, pos + 2) as int, name, p, bsm, mi, ci, st)
            },
        }
    }
}

/// Reading `n` method attributes from `pos` on.
pub open spec fn method_attrs(b: Seq<u8>, pos: int, n: int, p: Seq<Option<EntryModel>>, bsm: Option<Seq<BootstrapModel>>,
    mi: MethodInterests, ci: CodeInterests, st: MethodModel) -> MemberRead<MethodModel>
    decreases n,
{
    if n <= 0 {
        MemberRead::Read(st, pos)
    } else {
        match method_attr_at(b, pos, p, bsm, mi, ci, st) {
            MemberRead::Read(st2, next) => method_attrs(b, next, n - 1, p, bsm, mi, ci, st2),
            other => other,
        }
    }
}

/// Reading a method at `pos`: its access flags, the index of its name (which
/// must be a valid method name), the index of its descriptor (which must be a
/// valid method descriptor), then its attributes, as the interests ask.
pub open spec fn read_method_at(b: Seq<u8>, pos: int, p: Seq<Option<EntryModel>>, bsm: Option<Seq<BootstrapModel>>,
    mi: MethodInterests, ci: CodeInterests) -> MemberRead<MethodModel>
{
    if pos + 2 > b.len() || pos + 4 > b.len() {
        MemberRead::Fail(Error::UnexpectedEnd)
    } else {
        match pool_utf8(p, be_u16(b, pos + 2)) {
            Err(e) => MemberRead::Fail(e),
            Ok(name) => if !valid_method_name(name) {
                MemberRead::Fail(Error::InvalidName)
            } else if pos + 6 > b.len() {
                MemberRead::Fail(Error::UnexpectedEnd)
            } else {
                match pool_utf8(p, be_u16(b, pos + 4)) {
                    Err(e) => MemberRead::Fail(e),
                    Ok(d) => if !valid_method_descriptor(d) {
                        MemberRead::Fail(Error::InvalidDescriptor)
                    } else if pos + 8 > b.len() {
                        MemberRead::Fail(Error::UnexpectedEnd)
                    } else {
                        method_attrs(b, pos + 8, be_u16(b, pos + 6) as int, p, bsm, mi, ci,
                            new_method(method_access_of(be_u16(b, pos)), name, d))
                    },
                }
            },
        }
    }
}

/// Reads the contents of a `MethodParameters` attribute.
fn read_method_parameters(reader: &mut ClassReader, pool: &PoolRead) -> (r: Result<Vec<MethodParameter>, Error>)
    ensures
        final(reader).data() == old(reader).data(),
        match read_parameters_at(old(reader).data(), old(reader).position() as int, pool@) {
            Ok((v, end)) => r matches Ok(x) && parameters_view(x@) == v && final(reader).position() == end,
            Err(e) => r is Err && r->Err_0 == e,
        },
{
    let ghost b = reader.data();
    let ghost item = parameter_item(b, pool@);
    let n = reader.read_u8()?;
    let ghost whole = read_list(reader.position() as int, n as int, item);
    let mut v: Vec<MethodParameter> = Vec::new();
    let mut i: u8 = 0;
    assert(whole == prepend_list(parameters_view(v@), whole)) by {
        if let Ok((xs, end)) = whole {
            assert(parameters_view(v@) + xs =~= xs);
        }
    }
    while i < n
        invariant
            reader.data() == b,
            b == old(reader).data(),
            item == parameter_item(b, pool@),
            i <= n,
            whole == read_parameters_at(old(reader).data(), old(reader).position() as int, pool@),
            whole == prepend_list(parameters_view(v@), read_list(reader.position() as int, n - i, item)),
        decreases n - i,
    {
        let ghost pos = reader.position() as int;
        let index = match reader.read_u16() {
            Ok(x) => x,
            Err(e) => { return Err(e); },
        };
        let name = if index == 0 {
            None
        } else {
            let s = match pool.get_utf8(index) {
                Ok(x) => x,
                Err(e) => { return Err(e); },
            };
            match ParameterName::try_from(s) {
                Ok(x) => Some(x),
                Err(e) => { return Err(e); },
            }
        };
        let flags = match reader.read_u16() {
            Ok(x) => ParameterFlags::from(x),
            Err(e) => { return Err(e); },
        };
        let param = MethodParameter { name, flags };
        let ghost before = parameters_view(v@);
        let ghost pv = parameter_view(param);
        v.push(param);
        proof {
            assert(parameters_view(v@) =~= before.push(pv));
            if let Ok((xs, end)) = read_list(pos + 4, n - i - 1, item) {
                assert(before + (seq![pv] + xs) =~= parameters_view(v@) + xs);
            }
        }
        i = i + 1;
    }
    proof {
        assert(parameters_view(v@) + Seq::<ParameterModel>::empty() =~= parameters_view(v@));
    }
    Ok(v)
}

/// Reads one attribute of a method into `method`.
#[verifier::rlimit(40)]
fn read_method_attribute(reader: &mut ClassReader, pool: &PoolRead, bootstrap_methods: &Option<Vec<BootstrapMethodRead>>,
    interests: &MethodInterests, code_interests: &CodeInterests, method: Method) -> (r: Result<Method, Error>)
    requires
        !(method_attr_at(old(reader).data(), old(reader).position() as int, pool@, bootstrap_view(*bootstrap_methods),
            *interests, *code_interests, method@) is Excluded),
    ensures
        final(reader).data() == old(reader).data(),
        match method_attr_at(old(reader).data(), old(reader).position() as int, pool@, bootstrap_view(*bootstrap_methods),
            *interests, *code_interests, method@) {
            MemberRead::Read(m, next) => r matches Ok(x) && x@ == m && final(reader).position() == next,
            MemberRead::Fail(e) => r is Err && r->Err_0 == e,
            MemberRead::Excluded => false,
        },
{
    reveal(method_attr);
    let name = pool.get_utf8(reader.read_u16()?)?;
    let length = reader.read_u32()?;
    let mut method = method;
    if name.equals_str("Deprecated") {
        method.has_deprecated_attribute = true;
        Ok(method)
    } else if name.equals_str("Synthetic") {
        method.has_synthetic_attribute = true;
        Ok(method)
    } else if name.equals_str("Code") {
        if !interests.code {
            reader.skip(length as i64)?;
            Ok(method)
        } else {
            let code = read_code(reader, pool, bootstrap_methods, code_interests)?;
            if method.code.is_some() {
                return Err(Error::DuplicateAttribute);
            }
            method.code = Some(code);
            Ok(method)
        }
    } else if name.equals_str("Exceptions") {
        if !interests.exceptions {
            reader.skip(length as i64)?;
            Ok(method)
        } else {
            let exceptions = read_class_names(reader, pool)?;
            if method.exceptions.is_some() {
                return Err(Error::DuplicateAttribute);
            }
            method.exceptions = Some(exceptions);
            Ok(method)
        }
    } else if name.equals_str("Signature") {
        if !interests.signature {
            reader.skip(length as i64)?;
            Ok(method)
        } else {
            let signature = MethodSignature::from_inner_unchecked(pool.get_utf8(reader.read_u16()?)?);
            if method.signature.is_some() {
                return Err(Error::DuplicateAttribute);
            }
            method.signature = Some(signature);
            Ok(method)
        }
    } else {
        read_method_attribute_rest(reader, pool, interests, name, length, method)
    }
}

/// Reads the contents of one of the annotation, annotation default, skipped,
/// parameter or unknown attributes of a method.
#[verifier::rlimit(40)]
fn read_method_attribute_rest(reader: &mut ClassReader, pool: &PoolRead, interests: &MethodInterests, name: JavaString,
    length: u32, method: Method) -> (r: Result<Method, Error>)
    ensures
        final(reader).data() == old(reader).data(),
        match method_attr_rest(old(reader).data(), old(reader).position() as int, length as int, name@, pool@,
            *interests, method@) {
            MemberRead::Read(m, next) => r matches Ok(x) && x@ == m && final(reader).position() == next,
            MemberRead::Fail(e) => r is Err && r->Err_0 == e,
            MemberRead::Excluded => false,
        },
{
    reveal(method_attr_rest);
    let mut method = method;
    if name.equals_str("RuntimeVisibleAnnotations") {
        if !interests.runtime_visible_annotations {
            reader.skip(length as i64)?;
            return Ok(method);
        }
        let mut annotations = read_annotations(reader, pool)?;
        let ghost before = method.runtime_visible_annotations@;
        let ghost added = annotations@;
        method.runtime_visible_annotations.append(&mut annotations);
        assert(annotations_view(method.runtime_visible_annotations@) =~= annotations_view(before) + annotations_view(added));
        Ok(method)
    } else if name.equals_str("RuntimeInvisibleAnnotations") {
        if !interests.runtime_invisible_annotations {
            reader.skip(length as i64)?;
            return Ok(method);
        }
        let mut annotations = read_annotations(reader, pool)?;
        let ghost before = method.runtime_invisible_annotations@;
        let ghost added = annotations@;
        method.runtime_invisible_annotations.append(&mut annotations);
        assert(annotations_view(method.runtime_invisible_annotations@) =~= annotations_view(before) + annotations_view(added));
        Ok(method)
    } else if name.equals_str("RuntimeVisibleTypeAnnotations") {
        if !interests.runtime_visible_type_annotations {
            reader.skip(length as i64)?;
            return Ok(method);
        }
        let mut annotations = read_method_type_annotations(reader, pool)?;
        let ghost before = method.runtime_visible_type_annotations@;
        let ghost added = annotations@;
        method.runtime_visible_type_annotations.append(&mut annotations);
        assert(type_annotations_view(method.runtime_visible_type_annotations@)
            =~= type_annotations_view(before) + type_annotations_view(added));
        Ok(method)
    } else if name.equals_str("RuntimeInvisibleTypeAnnotations") {
        if !interests.runtime_invisible_type_annotations {
            reader.skip(length as i64)?;
            return Ok(method);
        }
        let mut annotations = read_method_type_annotations(reader, pool)?;
        let ghost before = method.runtime_invisible_type_annotations@;
        let ghost added = annotations@;
        method.runtime_invisible_type_annotations.append(&mut annotations);
        assert(type_annotations_view(method.runtime_invisible_type_annotations@)
            =~= type_annotations_view(before) + type_annotations_view(added));
        Ok(method)
    } else if name.equals_str("AnnotationDefault") {
        if !interests.annotation_default {
            reader.skip(length as i64)?;
            return Ok(method);
        }
        method.annotation_default = Some(read_element_value(reader, pool)?);
        Ok(method)
    } else if name.equals_str("RuntimeVisibleParameterAnnotations") || name.equals_str("RuntimeInvisibleParameterAnnotations") {
        reader.skip(length as i64)?;
        Ok(method)
    } else if name.equals_str("MethodParameters") {
        if !interests.method_parameters {
            reader.skip(length as i64)?;
            Ok(method)
        } else {
            let parameters = read_method_parameters(reader, pool)?;
            if method.method_parameters.is_some() {
                return Err(Error::DuplicateAttribute);
            }
            method.method_parameters = Some(parameters);
            Ok(method)
        }
    } else if !interests.unknown_attributes {
        reader.skip(length as i64)?;
        Ok(method)
    } else {
        let bytes = reader.read_u8_vec(length as usize)?;
        let ghost before = method.attributes@.map_values(|a: Attribute| a@);
        let attribute = Attribute { name, bytes };
        let ghost av = attribute@;
        method.attributes.push(attribute);
        assert(method.attributes@.map_values(|a: Attribute| a@) =~= before.push(av));
        Ok(method)
    }
}

/// Reads a method: its access flags, name and descriptor, then its
/// attributes as `interests` asks, the code as `code_interests` asks.
///
/// Type annotations and parameter annotations are skipped.
pub fn read_method(reader: &mut ClassReader, pool: &PoolRead, bootstrap_methods: &Option<Vec<BootstrapMethodRead>>,
    interests: &MethodInterests, code_interests: &CodeInterests) -> (r: Result<Method, Error>)
    requires
        !(read_method_at(old(reader).data(), old(reader).position() as int, pool@, bootstrap_view(*bootstrap_methods),
            *interests, *code_interests) is Excluded),
    ensures
        final(reader).data() == old(reader).data(),
        match read_method_at(old(reader).data(), old(reader).position() as int, pool@, bootstrap_view(*bootstrap_methods),
            *interests, *code_interests) {
            MemberRead::Read(m, end) => r matches Ok(x) && x@ == m && final(reader).position() == end,
            MemberRead::Fail(e) => r is Err && r->Err_0 == e,
            MemberRead::Excluded => false,
        },
{
    let ghost b = reader.data();
    let ghost bsm = bootstrap_view(*bootstrap_methods);
    let access = MethodAccess::from(reader.read_u16()?);
    let name = MethodName::try_from(pool.get_utf8(reader.read_u16()?)?)?;
    let descriptor = MethodDescriptor::try_from(pool.get_utf8(reader.read_u16()?)?)?;
    let mut method = Method::new(access, name, descriptor);
    let n = reader.read_u16()?;
    let mut i: u16 = 0;
    let ghost whole = read_method_at(b, old(reader).position() as int, pool@, bsm, *interests, *code_interests);
    while i < n
        invariant
            reader.data() == b,
            b == old(reader).data(),
            bsm == bootstrap_view(*bootstrap_methods),
            i <= n,
            whole == read_method_at(old(reader).data(), old(reader).position() as int, pool@, bootstrap_view(*bootstrap_methods),
                *interests, *code_interests),
            !(whole is Excluded),
            whole == method_attrs(b, reader.position() as int, n - i, pool@, bsm, *interests, *code_interests, method@),
        decreases n - i,
    {
        method = match read_method_attribute(reader, pool, bootstrap_methods, interests, code_interests, method) {
            Ok(m) => m,
            Err(e) => { return Err(e); },
        };
        i = i + 1;
    }
    Ok(method)
}

/// Reading attributes never changes the access flags, name or descriptor.
#[verifier::spinoff_prover]
proof fn lemma_method_attrs_keep(b: Seq<u8>, pos: int, n: int, p: Seq<Option<EntryModel>>,
    bsm: Option<Seq<BootstrapModel>>, mi: MethodInterests, ci: CodeInterests, st: MethodModel)
    ensures
        method_attrs(b, pos, n, p, bsm, mi, ci, st) matches MemberRead::Read(m, _)
            ==> m.access == st.access && m.name == st.name && m.descriptor == st.descriptor,
    decreases n,
{
    if n > 0 {
        lemma_method_attr_keep(b, pos, p, bsm, mi, ci, st);
        if let MemberRead::Read(st2, next) = method_attr_at(b, pos, p, bsm, mi, ci, st) {
            lemma_method_attrs_keep(b, next, n - 1, p, bsm, mi, ci, st2);
        }
    }
}

/// Reading one attribute never changes the access flags, name or descriptor.
#[verifier::spinoff_prover]
#[verifier::rlimit(40)]
proof fn lemma_method_attr_keep(b: Seq<u8>, pos: int, p: Seq<Option<EntryModel>>,
    bsm: Option<Seq<BootstrapModel>>, mi: MethodInterests, ci: CodeInterests, st: MethodModel)
    ensures
        method_attr_at(b, pos, p, bsm, mi, ci, st) matches MemberRead::Read(m, _)
            ==> m.access == st.access && m.name == st.name && m.descriptor == st.descriptor,
{
    reveal(method_attr);
    reveal(method_attr_rest);
}

/// A method starts with its access flags (two bytes), the pool index of its
/// name (two bytes), then the pool index of its descriptor (two bytes).
pub proof fn lemma_method_header(b: Seq<u8>, pos: int, p: Seq<Option<EntryModel>>, bsm: Option<Seq<BootstrapModel>>,
    mi: MethodInterests, ci: CodeInterests)
    requires
        0 <= pos,
        pos + 8 <= b.len(),
    ensures
        read_method_at(b, pos, p, bsm, mi, ci) matches MemberRead::Read(m, _) ==> {
            &&& m.access == method_access_of((b[pos] * 256 + b[pos + 1]) as u16)
            &&& pool_utf8(p, (b[pos + 2] * 256 + b[pos + 3]) as u16) == Ok::<Seq<u32>, Error>(m.name)
            &&& pool_utf8(p, (b[pos + 4] * 256 + b[pos + 5]) as u16) == Ok::<Seq<u32>, Error>(m.descriptor)
        },
{
    assert(be_u16(b, pos) == b[pos] * 256 + b[pos + 1]);
    assert(be_u16(b, pos + 2) == b[pos + 2] * 256 + b[pos + 3]);
    assert(be_u16(b, pos + 4) == b[pos + 4] * 256 + b[pos + 5]);
    if let (Ok(name), Ok(d)) = (pool_utf8(p, be_u16(b, pos + 2)), pool_utf8(p, be_u16(b, pos + 4))) {
        lemma_method_attrs_keep(b, pos + 8, be_u16(b, pos + 6) as int, p, bsm, mi, ci,
            new_method(method_access_of(be_u16(b, pos)), name, d));
    }
}

/// An entry of the `MethodParameters` attribute is the pool index of the
/// parameter's name (zero for none), then its flags, two bytes each.
pub proof fn lemma_parameter_layout(b: Seq<u8>, pos: int, p: Seq<Option<EntryModel>>)
    requires
        0 <= pos,
        pos + 4 <= b.len(),
    ensures
        parameter_item(b, p)(pos) matches Ok((x, end)) ==> {
            &&& pool_optional_utf8(p, (b[pos] * 256 + b[pos + 1]) as u16) == Ok::<Option<Seq<u32>>, Error>(x.name)
            &&& x.flags == parameter_flags_of((b[pos + 2] * 256 + b[pos + 3]) as u16)
            &&& end == pos + 4
        },
{
    assert(be_u16(b, pos) == b[pos] * 256 + b[pos + 1]);
    assert(be_u16(b, pos + 2) == b[pos + 2] * 256 + b[pos + 3]);
}

} // verus!


