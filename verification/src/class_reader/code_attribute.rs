//! Reading the `Code` attribute of a method: its limits, its instructions,
//! its exception table and the attributes inside it.
use vstd::prelude::*;
use crate::bytes::{ClassReader, be_u16, be_u32};
use crate::class_reader::bootstrap::{BootstrapMethodRead, BootstrapModel, bootstrap_view};
use crate::class_reader::code::{Scan, create_branch_labels, scan_code};
use crate::class_reader::frames::{FrameModel, StackMapData};
use crate::class_reader::instructions::{DecodeAll, decode_code, frames_view, label_at, read_instructions};
use crate::class_reader::labels::{CodeRead, Labels, add_labels};
use crate::class_reader::pool::{EntryModel, PoolRead, pool_utf8};
use crate::class_reader::stack_map::{read_stack_map, read_stack_map_at, read_stack_map_table, read_stack_map_table_at, sort_by_label};
use crate::class_reader::tables::{
    exception_item, line_number_item, local_variable_item, lvs_view, read_exception_table, read_line_number_table,
    read_local_variable_table, read_table,
};
use crate::error::Error;
use crate::jstring::{JavaString, code_points_of};
use crate::tree::attribute::{Attribute, AttributeModel};
use crate::tree::code::{Label, Lv, LvModel};
use crate::tree::instruction::{Code, CodeModel};
use crate::visitor::CodeInterests;

verus! {

/// What reading the attributes of a `Code` attribute has gathered so far: the
/// labels, the stack map frames, the line numbers, the local variables and the
/// attributes kept as bytes.
pub ghost struct AttrState {
    pub m: Map<u16, Label>,
    pub frames: Option<Seq<(Label, FrameModel)>>,
    pub lines: Option<Seq<(Label, u16)>>,
    pub lvs: Option<Seq<LvModel>>,
    pub attrs: Seq<AttributeModel>,
}

/// The outcome of reading attributes inside a `Code` attribute.
pub ghost enum AttrRead {
    /// What was gathered, and the position after the attributes.
    Read(AttrState, int),
    /// Reading failed.
    Fail(Error),
    /// A frame offset does not fit a `u16`, or a range end does not.
    Excluded,
}

/// The outcome of reading a whole `Code` attribute.
pub ghost enum CodeOutcome {
    /// The code, and the position after it.
    Read(CodeModel, int),
    /// Reading failed.
    Fail(Error),
    /// An instruction reaches past the end of the code, a `tableswitch` length
    /// overflows, a frame offset or a range end does not fit a `u16`, or a
    /// constant cannot be resolved.
    Excluded,
}

/// The name of an attribute, as code points.
pub open spec fn attribute_name(s: &str) -> Seq<u32> {
    code_points_of(s@)
}

/// Skipping `length` bytes from `q` on.
pub open spec fn skip_attr(st: AttrState, q: int, length: int) -> AttrRead {
    if q + length > usize::MAX {
        AttrRead::Fail(Error::InvalidSeek)
    } else {
        AttrRead::Read(st, q + length)
    }
}

/// The sequence `s`, or the empty sequence for `None`.
pub open spec fn or_empty<T>(s: Option<Seq<T>>) -> Seq<T> {
    match s {
        Some(x) => x,
        None => Seq::empty(),
    }
}

/// Reading the contents of the attribute named `name`, `length` bytes long, at `q`.
pub open spec fn code_attr(b: Seq<u8>, q: int, length: int, name: Seq<u32>, p: Seq<Option<EntryModel>>,
    interests: CodeInterests, len: u16, st: AttrState) -> AttrRead
{
    if name == attribute_name("StackMapTable") {
        if !interests.stack_map_table {
            skip_attr(st, q, length)
        } else {
            match read_stack_map_table_at(b, q, p, st.m, len) {
                CodeRead::Read(fs, end, m2) => if st.frames is Some {
                    AttrRead::Fail(Error::DuplicateAttribute)
                } else {
                    AttrRead::Read(AttrState { m: m2, frames: Some(fs), ..st }, end)
                },
                CodeRead::Fail(e) => AttrRead::Fail(e),
                CodeRead::Overflow => AttrRead::Excluded,
            }
        }
    } else if name == attribute_name("StackMap") {
        if !interests.stack_map_table {
            skip_attr(st, q, length)
        } else {
            match read_stack_map_at(b, q, p, st.m, len) {
                CodeRead::Read(fs, end, m2) => if st.frames is Some {
                    AttrRead::Fail(Error::DuplicateAttribute)
                } else {
                    AttrRead::Read(AttrState { m: m2, frames: Some(sort_by_label(fs)), ..st }, end)
                },
                CodeRead::Fail(e) => AttrRead::Fail(e),
                CodeRead::Overflow => AttrRead::Excluded,
            }
        }
    } else if name == attribute_name("LineNumberTable") {
        if !interests.line_number_table {
            skip_attr(st, q, length)
        } else {
            match read_table(b, q, st.m, line_number_item(b, len)) {
                CodeRead::Read(t, end, m2) => AttrRead::Read(AttrState { m: m2, lines: Some(or_empty(st.lines) + t), ..st }, end),
                CodeRead::Fail(e) => AttrRead::Fail(e),
                CodeRead::Overflow => AttrRead::Excluded,
            }
        }
    } else if name == attribute_name("LocalVariableTable") || name == attribute_name("LocalVariableTypeTable") {
        let typed = name != attribute_name("LocalVariableTable");
        if (!typed && !interests.local_variable_table) || (typed && !interests.local_variable_type_table) {
            skip_attr(st, q, length)
        } else {
            match read_table(b, q, st.m, local_variable_item(b, p, len, typed)) {
                CodeRead::Read(t, end, m2) => AttrRead::Read(AttrState { m: m2, lvs: Some(or_empty(st.lvs) + t), ..st }, end),
                CodeRead::Fail(e) => AttrRead::Fail(e),
                CodeRead::Overflow => AttrRead::Excluded,
            }
        }
    } else if name == attribute_name("RuntimeVisibleTypeAnnotations") || name == attribute_name("RuntimeInvisibleTypeAnnotations") {
        skip_attr(st, q, length)
    } else if !interests.unknown_attributes {
        skip_attr(st, q, length)
    } else if q + length > b.len() {
        AttrRead::Fail(Error::UnexpectedEnd)
    } else {
        AttrRead::Read(AttrState { attrs: st.attrs.push(AttributeModel { name, bytes: b.subrange(q, q + length) }), ..st }, q + length)
    }
}

/// Reading one attribute at `pos`: a two-byte name index and a four-byte
/// length, then its contents.
pub open spec fn code_attr_at(b: Seq<u8>, pos: int, p: Seq<Option<EntryModel>>, interests: CodeInterests, len: u16,
    st: AttrState) -> AttrRead
{
    if pos + 2 > b.len() {
        AttrRead::Fail(Error::UnexpectedEnd)
    } else {
        match pool_utf8(p, be_u16(b, pos)) {
            Err(e) => AttrRead::Fail(e),
            Ok(name) => if pos + 6 > b.len() {
                AttrRead::Fail(Error::UnexpectedEnd)
            } else {
                code_attr(b, pos + 6, be_u32(b, pos + 2) as int, name, p, interests, len, st)
            },
        }
    }
}

/// Reading `n` attributes from `pos` on.
pub open spec fn code_attrs(b: Seq<u8>, pos: int, n: int, p: Seq<Option<EntryModel>>, interests: CodeInterests, len: u16,
    st: AttrState) -> AttrRead
    decreases n,
{
    if n <= 0 {
        AttrRead::Read(st, pos)
    } else {
        match code_attr_at(b, pos, p, interests, len, st) {
            AttrRead::Read(st2, next) => code_attrs(b, next, n - 1, p, interests, len, st2),
            other => other,
        }
    }
}

/// The code once its attributes are read: the instructions of `code` are
/// decoded with the labels and frames gathered.
pub open spec fn code_after_attrs(code: Seq<u8>, p: Seq<Option<EntryModel>>, bsm: Option<Seq<BootstrapModel>>,
    max_stack: u16, max_locals: u16, exceptions: Seq<crate::tree::code::ExceptionModel>, r: AttrRead) -> CodeOutcome
{
    match r {
        AttrRead::Fail(e) => CodeOutcome::Fail(e),
        AttrRead::Excluded => CodeOutcome::Excluded,
        AttrRead::Read(st, end) => match decode_code(code, 0, p, bsm, st.m, or_empty(st.frames)) {
            DecodeAll::Done(instructions) => CodeOutcome::Read(CodeModel {
                max_stack: Some(max_stack),
                max_locals: Some(max_locals),
                instructions,
                exception_table: exceptions,
                last_label: label_at(st.m, code.len() as int),
                line_numbers: st.lines,
                local_variables: None,
                attributes: st.attrs,
            }, end),
            DecodeAll::Fail(e) => CodeOutcome::Fail(e),
            DecodeAll::Excluded => CodeOutcome::Excluded,
        },
    }
}

/// Reading a `Code` attribute's contents at `pos`, with the pool `p` and the
/// bootstrap methods `bsm`: the limits, the code (whose length must lie in
/// `1..=65535`), the exception table, the attributes (as `interests` asks),
/// then the instructions.
pub open spec fn read_code_at(b: Seq<u8>, pos: int, p: Seq<Option<EntryModel>>, bsm: Option<Seq<BootstrapModel>>,
    interests: CodeInterests) -> CodeOutcome
{
    if pos + 4 > b.len() || pos + 8 > b.len() {
        CodeOutcome::Fail(Error::UnexpectedEnd)
    } else {
        let n = be_u32(b, pos + 4) as int;
        let c = pos + 8;
        if n == 0 || n > 0xFFFF {
            CodeOutcome::Fail(Error::InvalidCodeLength)
        } else if c + n > b.len() {
            CodeOutcome::Fail(Error::UnexpectedEnd)
        } else {
            let code = b.subrange(c, c + n);
            let len = n as u16;
            match scan_code(code, 0) {
                Scan::Overrun => CodeOutcome::Excluded,
                Scan::Fail(e) => CodeOutcome::Fail(e),
                Scan::Done(ts) => match read_table(b, c + n, add_labels(Map::empty(), ts), exception_item(b, p, len)) {
                    CodeRead::Fail(e) => CodeOutcome::Fail(e),
                    CodeRead::Overflow => CodeOutcome::Excluded,
                    CodeRead::Read(exceptions, p1, m1) => if p1 + 2 > b.len() {
                        CodeOutcome::Fail(Error::UnexpectedEnd)
                    } else {
                        let st0 = AttrState { m: m1, frames: None, lines: None, lvs: None, attrs: Seq::empty() };
                        code_after_attrs(code, p, bsm, be_u16(b, pos), be_u16(b, pos + 2), exceptions,
                            code_attrs(b, p1 + 2, be_u16(b, p1) as int, p, interests, len, st0))
                    },
                },
            }
        }
    }
}

/// What reading the attributes of a `Code` attribute has gathered so far.
struct CodeParts {
    frames: Option<Vec<(Label, StackMapData)>>,
    lines: Option<Vec<(Label, u16)>>,
    lvs: Option<Vec<Lv>>,
    attrs: Vec<Attribute>,
}

/// The model of what was gathered, with the labels `m`.
spec fn parts_state(m: Map<u16, Label>, parts: CodeParts) -> AttrState {
    AttrState {
        m,
        frames: match parts.frames {
            Some(v) => Some(frames_view(v@)),
            None => None,
        },
        lines: match parts.lines {
            Some(v) => Some(v@),
            None => None,
        },
        lvs: match parts.lvs {
            Some(v) => Some(lvs_view(v@)),
            None => None,
        },
        attrs: parts.attrs@.map_values(|a: Attribute| a@),
    }
}

/// Reads one attribute inside a `Code` attribute, adding what it holds to `parts`.
#[verifier::rlimit(40)]
fn read_code_attribute(reader: &mut ClassReader, pool: &PoolRead, labels: &mut Labels, interests: &CodeInterests,
    parts: CodeParts) -> (r: Result<CodeParts, Error>)
    requires
        old(labels).wf(),
        !(code_attr_at(old(reader).data(), old(reader).position() as int, pool@, *interests, old(labels).code_length(),
            parts_state(old(labels).map(), parts)) is Excluded),
    ensures
        final(reader).data() == old(reader).data(),
        final(labels).wf(),
        final(labels).code_length() == old(labels).code_length(),
        match code_attr_at(old(reader).data(), old(reader).position() as int, pool@, *interests, old(labels).code_length(),
            parts_state(old(labels).map(), parts)) {
            AttrRead::Read(st, next) => r matches Ok(x) && parts_state(final(labels).map(), x) == st
                && final(reader).position() == next,
            AttrRead::Fail(e) => r is Err && r->Err_0 == e,
            AttrRead::Excluded => false,
        },
{
    let ghost b = reader.data();
    let name = pool.get_utf8(reader.read_u16()?)?;
    let length = reader.read_u32()?;
    let CodeParts { frames, lines, lvs, mut attrs } = parts;
    if name.equals_str("StackMapTable") {
        if !interests.stack_map_table {
            reader.skip(length as i64)?;
            Ok(CodeParts { frames, lines, lvs, attrs })
        } else {
            let fs = read_stack_map_table(reader, pool, labels)?;
            if frames.is_some() {
                return Err(Error::DuplicateAttribute);
            }
            Ok(CodeParts { frames: Some(fs), lines, lvs, attrs })
        }
    } else if name.equals_str("StackMap") {
        if !interests.stack_map_table {
            reader.skip(length as i64)?;
            Ok(CodeParts { frames, lines, lvs, attrs })
        } else {
            let fs = read_stack_map(reader, pool, labels)?;
            if frames.is_some() {
                return Err(Error::DuplicateAttribute);
            }
            Ok(CodeParts { frames: Some(fs), lines, lvs, attrs })
        }
    } else if name.equals_str("LineNumberTable") {
        if !interests.line_number_table {
            reader.skip(length as i64)?;
            Ok(CodeParts { frames, lines, lvs, attrs })
        } else {
            let mut t = read_line_number_table(reader, labels)?;
            let lines = match lines {
                Some(mut v) => {
                    v.append(&mut t);
                    Some(v)
                },
                None => Some(t),
            };
            Ok(CodeParts { frames, lines, lvs, attrs })
        }
    } else if name.equals_str("LocalVariableTable") || name.equals_str("LocalVariableTypeTable") {
        let typed = !name.equals_str("LocalVariableTable");
        if (!typed && !interests.local_variable_table) || (typed && !interests.local_variable_type_table) {
            reader.skip(length as i64)?;
            Ok(CodeParts { frames, lines, lvs, attrs })
        } else {
            let mut t = read_local_variable_table(reader, labels, pool, typed)?;
            let ghost tv = lvs_view(t@);
            let lvs = match lvs {
                Some(mut v) => {
                    let ghost vv = lvs_view(v@);
                    v.append(&mut t);
                    assert(lvs_view(v@) =~= vv + tv);
                    Some(v)
                },
                None => Some(t),
            };
            Ok(CodeParts { frames, lines, lvs, attrs })
        }
    } else if name.equals_str("RuntimeVisibleTypeAnnotations") || name.equals_str("RuntimeInvisibleTypeAnnotations") {
        reader.skip(length as i64)?;
        Ok(CodeParts { frames, lines, lvs, attrs })
    } else if !interests.unknown_attributes {
        reader.skip(length as i64)?;
        Ok(CodeParts { frames, lines, lvs, attrs })
    } else {
        let bytes = reader.read_u8_vec(length as usize)?;
        let ghost before = attrs@.map_values(|a: Attribute| a@);
        let attribute = Attribute { name, bytes };
        let ghost av = attribute@;
        attrs.push(attribute);
        assert(attrs@.map_values(|a: Attribute| a@) =~= before.push(av));
        Ok(CodeParts { frames, lines, lvs, attrs })
    }
}

/// Reads the contents of a method's `Code` attribute, as `interests` asks: the
/// limits of the stack and the locals, the instructions (with their labels and
/// frames), the exception table, the line numbers and the other attributes,
/// kept as bytes.
///
/// The constants of `ldc` and the call sites of `invokedynamic` are resolved
/// through the pool and `bootstrap_methods`. The local variable tables are
/// read and checked, but the code does not take them up. Type annotations
/// inside the code are skipped.
#[verifier::rlimit(40)]
pub fn read_code(reader: &mut ClassReader, pool: &PoolRead, bootstrap_methods: &Option<Vec<BootstrapMethodRead>>,
    interests: &CodeInterests) -> (r: Result<Code, Error>)
    requires
        !(read_code_at(old(reader).data(), old(reader).position() as int, pool@, bootstrap_view(*bootstrap_methods),
            *interests) is Excluded),
    ensures
        final(reader).data() == old(reader).data(),
        match read_code_at(old(reader).data(), old(reader).position() as int, pool@, bootstrap_view(*bootstrap_methods), *interests) {
            CodeOutcome::Read(c, end) => r matches Ok(x) && x@ == c && final(reader).position() == end,
            CodeOutcome::Fail(e) => r is Err && r->Err_0 == e,
            CodeOutcome::Excluded => false,
        },
{
    let ghost b = reader.data();
    let ghost pos = reader.position() as int;
    let ghost whole = read_code_at(b, pos, pool@, bootstrap_view(*bootstrap_methods), *interests);
    let max_stack = reader.read_u16()?;
    let max_locals = reader.read_u16()?;
    let code_length = reader.read_u32()?;
    if code_length == 0 || code_length > 0xFFFF {
        return Err(Error::InvalidCodeLength);
    }
    let bytecode = reader.read_u8_vec(code_length as usize)?;
    let ghost code = bytecode@;
    assert(code == b.subrange(pos + 8, pos + 8 + code_length));
    let mut labels = create_branch_labels(&bytecode)?;
    let exception_table = read_exception_table(reader, &mut labels, pool)?;
    let ghost p1 = reader.position() as int;
    let ghost m1 = labels.map();
    let n = reader.read_u16()?;
    let mut parts = CodeParts { frames: None, lines: None, lvs: None, attrs: Vec::new() };
    let mut i: u16 = 0;
    let ghost len = labels.code_length();
    let ghost st0 = AttrState { m: m1, frames: None, lines: None, lvs: None, attrs: Seq::empty() };
    assert(parts_state(m1, parts) == st0) by {
        assert(parts.attrs@.map_values(|a: Attribute| a@) =~= Seq::<AttributeModel>::empty());
    }
    let ghost attrs_whole = code_attrs(b, p1 + 2, n as int, pool@, *interests, len, st0);
    while i < n
        invariant
            reader.data() == b,
            b == old(reader).data(),
            labels.wf(),
            labels.code_length() == len,
            i <= n,
            !(attrs_whole is Excluded),
            attrs_whole == code_attrs(b, reader.position() as int, n - i, pool@, *interests, len, parts_state(labels.map(), parts)),
            whole == code_after_attrs(code, pool@, bootstrap_view(*bootstrap_methods), max_stack, max_locals,
                crate::class_reader::tables::exceptions_view(exception_table@), attrs_whole),
            whole == read_code_at(old(reader).data(), old(reader).position() as int, pool@, bootstrap_view(*bootstrap_methods), *interests),
        decreases n - i,
    {
        parts = match read_code_attribute(reader, pool, &mut labels, interests, parts) {
            Ok(x) => x,
            Err(e) => { return Err(e); },
        };
        i = i + 1;
    }
    finish_code(&bytecode, pool, &labels, bootstrap_methods, max_stack, max_locals, exception_table, parts)
}

/// Decodes the instructions once the attributes are read, and puts the code together.
fn finish_code(bytecode: &Vec<u8>, pool: &PoolRead, labels: &Labels, bootstrap_methods: &Option<Vec<BootstrapMethodRead>>,
    max_stack: u16, max_locals: u16, exception_table: Vec<crate::tree::code::Exception>, parts: CodeParts)
    -> (r: Result<Code, Error>)
    requires
        bytecode.len() <= 0xFFFF,
        !(code_after_attrs(bytecode@, pool@, bootstrap_view(*bootstrap_methods), max_stack, max_locals,
            crate::class_reader::tables::exceptions_view(exception_table@), AttrRead::Read(parts_state(labels.map(), parts), 0))
            is Excluded),
    ensures
        forall|end: int| #[trigger] code_after_attrs(bytecode@, pool@, bootstrap_view(*bootstrap_methods), max_stack, max_locals,
            crate::class_reader::tables::exceptions_view(exception_table@), AttrRead::Read(parts_state(labels.map(), parts), end))
            matches CodeOutcome::Read(c, e2) ==> e2 == end && (r matches Ok(x) && x@ == c),
        forall|end: int| #[trigger] code_after_attrs(bytecode@, pool@, bootstrap_view(*bootstrap_methods), max_stack, max_locals,
            crate::class_reader::tables::exceptions_view(exception_table@), AttrRead::Read(parts_state(labels.map(), parts), end))
            matches CodeOutcome::Fail(e) ==> r is Err && r->Err_0 == e,
{
    let CodeParts { frames, lines, lvs: _, attrs } = parts;
    let frames = match frames {
        Some(v) => v,
        None => {
            let v: Vec<(Label, StackMapData)> = Vec::new();
            assert(frames_view(v@) =~= Seq::<(Label, FrameModel)>::empty());
            v
        },
    };
    let instructions = read_instructions(bytecode, pool, labels, bootstrap_methods, frames)?;
    let last_label = labels.get(bytecode.len() as u16);
    Ok(Code {
        max_stack: Some(max_stack),
        max_locals: Some(max_locals),
        instructions,
        exception_table,
        last_label,
        line_numbers: lines,
        local_variables: None,
        attributes: attrs,
    })
}

/// A `Code` attribute starts with its limits: the two bytes of `max_stack`,
/// the two bytes of `max_locals`, then the four-byte length of the code, which
/// must lie in `1..=65535`.
pub proof fn lemma_code_limits(b: Seq<u8>, pos: int, p: Seq<Option<EntryModel>>, bsm: Option<Seq<BootstrapModel>>,
    interests: CodeInterests)
    requires
        0 <= pos,
        pos + 8 <= b.len(),
    ensures
        read_code_at(b, pos, p, bsm, interests) matches CodeOutcome::Read(c, _) ==> {
            &&& c.max_stack == Some((b[pos] * 256 + b[pos + 1]) as u16)
            &&& c.max_locals == Some((b[pos + 2] * 256 + b[pos + 3]) as u16)
        },
        ({
            let n = b[pos + 4] * 0x1000000 + b[pos + 5] * 0x10000 + b[pos + 6] * 0x100 + b[pos + 7];
            n == 0 || n > 0xFFFF ==> read_code_at(b, pos, p, bsm, interests) == CodeOutcome::Fail(Error::InvalidCodeLength)
        }),
{
    assert(be_u16(b, pos) == b[pos] * 256 + b[pos + 1]);
    assert(be_u16(b, pos + 2) == b[pos + 2] * 256 + b[pos + 3]);
    assert(be_u32(b, pos + 4) == b[pos + 4] * 0x1000000 + b[pos + 5] * 0x10000 + b[pos + 6] * 0x100 + b[pos + 7]);
}

} // verus!

