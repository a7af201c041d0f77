//! Reading the frames of a `StackMapTable` attribute.
use vstd::prelude::*;
use crate::bytes::{ClassReader, be_u16};
use crate::class_reader::labels::{Labels, CodeRead, add_label};
use crate::class_reader::pool::{EntryModel, PoolRead, pool_class};
use crate::error::Error;
use crate::tree::class::ClassName;
use crate::tree::code::Label;

verus! {

/// The type of a local variable or of an operand stack entry in a frame.
#[derive(Debug)]
pub enum VerificationTypeInfo {
    Top,
    Integer,
    Float,
    Long,
    Double,
    Null,
    UninitializedThis,
    Object(ClassName),
    Uninitialized(Label),
}

/// The model of a [`VerificationTypeInfo`]: its tag, the class name of an
/// `Object`, the label of an `Uninitialized`.
pub ghost struct TypeInfoModel {
    pub tag: u8,
    pub class: Seq<u32>,
    pub label: Label,
}

impl View for VerificationTypeInfo {
    type V = TypeInfoModel;

    open spec fn view(&self) -> TypeInfoModel {
        let none = Label { id: 0 };
        match self {
            VerificationTypeInfo::Top => TypeInfoModel { tag: 0, class: Seq::empty(), label: none },
            VerificationTypeInfo::Integer => TypeInfoModel { tag: 1, class: Seq::empty(), label: none },
            VerificationTypeInfo::Float => TypeInfoModel { tag: 2, class: Seq::empty(), label: none },
            VerificationTypeInfo::Double => TypeInfoModel { tag: 3, class: Seq::empty(), label: none },
            VerificationTypeInfo::Long => TypeInfoModel { tag: 4, class: Seq::empty(), label: none },
            VerificationTypeInfo::Null => TypeInfoModel { tag: 5, class: Seq::empty(), label: none },
            VerificationTypeInfo::UninitializedThis => TypeInfoModel { tag: 6, class: Seq::empty(), label: none },
            VerificationTypeInfo::Object(c) => TypeInfoModel { tag: 7, class: c@, label: none },
            VerificationTypeInfo::Uninitialized(l) => TypeInfoModel { tag: 8, class: Seq::empty(), label: *l },
        }
    }
}

/// What a frame says about the locals and the operand stack.
#[derive(Debug)]
pub enum StackMapData {
    Same,
    SameLocals1StackItem {
        stack: VerificationTypeInfo,
    },
    Chop {
        k: u8,
    },
    Append {
        locals: Vec<VerificationTypeInfo>,
    },
    Full {
        locals: Vec<VerificationTypeInfo>,
        stack: Vec<VerificationTypeInfo>,
    },
}

/// The model of a [`StackMapData`]: which kind it is (`0` to `4`, in the order
/// of the variants), the number `k` of a `Chop`, the locals and the stack.
pub ghost struct FrameModel {
    pub kind: u8,
    pub k: u8,
    pub locals: Seq<TypeInfoModel>,
    pub stack: Seq<TypeInfoModel>,
}

/// The models of a sequence of type infos.
pub open spec fn infos_view(v: Seq<VerificationTypeInfo>) -> Seq<TypeInfoModel> {
    v.map_values(|i: VerificationTypeInfo| i@)
}

impl View for StackMapData {
    type V = FrameModel;

    open spec fn view(&self) -> FrameModel {
        match self {
            StackMapData::Same => FrameModel { kind: 0, k: 0, locals: Seq::empty(), stack: Seq::empty() },
            StackMapData::SameLocals1StackItem { stack } => FrameModel { kind: 1, k: 0, locals: Seq::empty(), stack: seq![stack@] },
            StackMapData::Chop { k } => FrameModel { kind: 2, k: *k, locals: Seq::empty(), stack: Seq::empty() },
            StackMapData::Append { locals } => FrameModel { kind: 3, k: 0, locals: infos_view(locals@), stack: Seq::empty() },
            StackMapData::Full { locals, stack } =>
                FrameModel { kind: 4, k: 0, locals: infos_view(locals@), stack: infos_view(stack@) },
        }
    }
}

/// Reading a type info at `pos`, with the pool `p` and the labels `m` of code of length `len`.
pub open spec fn read_type_info(b: Seq<u8>, pos: int, p: Seq<Option<EntryModel>>, m: Map<u16, Label>, len: u16)
    -> CodeRead<TypeInfoModel>
{
    let none = Label { id: 0 };
    if pos + 1 > b.len() {
        CodeRead::Fail(Error::UnexpectedEnd)
    } else {
        let tag = b[pos];
        if tag <= 6 {
            CodeRead::Read(TypeInfoModel { tag, class: Seq::empty(), label: none }, pos + 1, m)
        } else if tag == 7 || tag == 8 {
            if pos + 3 > b.len() {
                CodeRead::Fail(Error::UnexpectedEnd)
            } else if tag == 7 {
                match pool_class(p, be_u16(b, pos + 1)) {
                    Ok(c) => CodeRead::Read(TypeInfoModel { tag, class: c, label: none }, pos + 3, m),
                    Err(e) => CodeRead::Fail(e),
                }
            } else if be_u16(b, pos + 1) >= len {
                CodeRead::Fail(Error::LabelOutOfBounds)
            } else {
                let m2 = add_label(m, be_u16(b, pos + 1));
                CodeRead::Read(TypeInfoModel { tag, class: Seq::empty(), label: m2[be_u16(b, pos + 1)] }, pos + 3, m2)
            }
        } else {
            CodeRead::Fail(Error::UnknownTag)
        }
    }
}

/// Reading `n` type infos at `pos`.
pub open spec fn read_type_infos(b: Seq<u8>, pos: int, n: int, p: Seq<Option<EntryModel>>, m: Map<u16, Label>, len: u16)
    -> CodeRead<Seq<TypeInfoModel>>
    decreases n,
{
    if n <= 0 {
        CodeRead::Read(Seq::empty(), pos, m)
    } else {
        match read_type_info(b, pos, p, m, len) {
            CodeRead::Read(i, pos2, m2) => match read_type_infos(b, pos2, n - 1, p, m2, len) {
                CodeRead::Read(is, end, m3) => CodeRead::Read(seq![i] + is, end, m3),
                CodeRead::Fail(e) => CodeRead::Fail(e),
                CodeRead::Overflow => CodeRead::Overflow,
            },
            CodeRead::Fail(e) => CodeRead::Fail(e),
            CodeRead::Overflow => CodeRead::Overflow,
        }
    }
}

/// Reading a two-byte count of type infos at `pos`, then the type infos.
pub open spec fn read_counted_type_infos(b: Seq<u8>, pos: int, p: Seq<Option<EntryModel>>, m: Map<u16, Label>, len: u16)
    -> CodeRead<Seq<TypeInfoModel>>
{
    if pos + 2 > b.len() {
        CodeRead::Fail(Error::UnexpectedEnd)
    } else {
        read_type_infos(b, pos + 2, be_u16(b, pos) as int, p, m, len)
    }
}

/// Reading a frame at `pos`: its offset delta and what it says.
pub open spec fn read_frame(b: Seq<u8>, pos: int, p: Seq<Option<EntryModel>>, m: Map<u16, Label>, len: u16)
    -> CodeRead<(u16, FrameModel)>
{
    let empty = Seq::<TypeInfoModel>::empty();
    if pos + 1 > b.len() {
        CodeRead::Fail(Error::UnexpectedEnd)
    } else {
        let t = b[pos];
        let q = pos + 1;
        if t <= 63 {
            CodeRead::Read((t as u16, FrameModel { kind: 0, k: 0, locals: empty, stack: empty }), q, m)
        } else if t <= 127 {
            match read_type_info(b, q, p, m, len) {
                CodeRead::Read(i, end, m2) =>
                    CodeRead::Read(((t - 64) as u16, FrameModel { kind: 1, k: 0, locals: empty, stack: seq![i] }), end, m2),
                CodeRead::Fail(e) => CodeRead::Fail(e),
                CodeRead::Overflow => CodeRead::Overflow,
            }
        } else if t <= 246 {
            CodeRead::Fail(Error::UnknownTag)
        } else if q + 2 > b.len() {
            CodeRead::Fail(Error::UnexpectedEnd)
        } else {
            let delta = be_u16(b, q);
            let r = q + 2;
            if t == 247 {
                match read_type_info(b, r, p, m, len) {
                    CodeRead::Read(i, end, m2) =>
                        CodeRead::Read((delta, FrameModel { kind: 1, k: 0, locals: empty, stack: seq![i] }), end, m2),
                    CodeRead::Fail(e) => CodeRead::Fail(e),
                    CodeRead::Overflow => CodeRead::Overflow,
                }
            } else if t <= 250 {
                CodeRead::Read((delta, FrameModel { kind: 2, k: (251 - t) as u8, locals: empty, stack: empty }), r, m)
            } else if t == 251 {
                CodeRead::Read((delta, FrameModel { kind: 0, k: 0, locals: empty, stack: empty }), r, m)
            } else if t <= 254 {
                match read_type_infos(b, r, t - 251, p, m, len) {
                    CodeRead::Read(locals, end, m2) =>
                        CodeRead::Read((delta, FrameModel { kind: 3, k: 0, locals, stack: empty }), end, m2),
                    CodeRead::Fail(e) => CodeRead::Fail(e),
                    CodeRead::Overflow => CodeRead::Overflow,
                }
            } else {
                match read_counted_type_infos(b, r, p, m, len) {
                    CodeRead::Read(locals, r2, m2) => match read_counted_type_infos(b, r2, p, m2, len) {
                        CodeRead::Read(stack, end, m3) =>
                            CodeRead::Read((delta, FrameModel { kind: 4, k: 0, locals, stack }), end, m3),
                        CodeRead::Fail(e) => CodeRead::Fail(e),
                        CodeRead::Overflow => CodeRead::Overflow,
                    },
                    CodeRead::Fail(e) => CodeRead::Fail(e),
                    CodeRead::Overflow => CodeRead::Overflow,
                }
            }
        }
    }
}

/// Reads a type info, creating the label of an `Uninitialized`.
pub fn read_verification_type_info(reader: &mut ClassReader, pool: &PoolRead, labels: &mut Labels)
    -> (r: Result<VerificationTypeInfo, Error>)
    requires
        old(labels).wf(),
    ensures
        final(reader).data() == old(reader).data(),
        final(labels).wf(),
        final(labels).code_length() == old(labels).code_length(),
        match read_type_info(old(reader).data(), old(reader).position() as int, pool@, old(labels).map(), old(labels).code_length()) {
            CodeRead::Read(i, end, m2) => r matches Ok(x) && x@ == i && final(reader).position() == end
                && final(labels).map() == m2,
            CodeRead::Fail(e) => r is Err && r == Err::<VerificationTypeInfo, Error>(e),
            CodeRead::Overflow => false,
        },
{
    let tag = reader.read_u8()?;
    if tag == 0 {
        Ok(VerificationTypeInfo::Top)
    } else if tag == 1 {
        Ok(VerificationTypeInfo::Integer)
    } else if tag == 2 {
        Ok(VerificationTypeInfo::Float)
    } else if tag == 3 {
        Ok(VerificationTypeInfo::Double)
    } else if tag == 4 {
        Ok(VerificationTypeInfo::Long)
    } else if tag == 5 {
        Ok(VerificationTypeInfo::Null)
    } else if tag == 6 {
        Ok(VerificationTypeInfo::UninitializedThis)
    } else if tag == 7 {
        let class = pool.get_class(reader.read_u16()?)?;
        Ok(VerificationTypeInfo::Object(class))
    } else if tag == 8 {
        let label = labels.get_or_create(reader.read_u16()?)?;
        Ok(VerificationTypeInfo::Uninitialized(label))
    } else {
        Err(Error::UnknownTag)
    }
}

/// Reads `n` type infos.
fn read_type_info_vec(reader: &mut ClassReader, pool: &PoolRead, labels: &mut Labels, n: u16)
    -> (r: Result<Vec<VerificationTypeInfo>, Error>)
    requires
        old(labels).wf(),
    ensures
        final(reader).data() == old(reader).data(),
        final(labels).wf(),
        final(labels).code_length() == old(labels).code_length(),
        match read_type_infos(old(reader).data(), old(reader).position() as int, n as int, pool@, old(labels).map(), old(labels).code_length()) {
            CodeRead::Read(is, end, m2) => r matches Ok(v) && infos_view(v@) == is && final(reader).position() == end
                && final(labels).map() == m2,
            CodeRead::Fail(e) => r is Err && r == Err::<Vec<VerificationTypeInfo>, Error>(e),
            CodeRead::Overflow => false,
        },
{
    let ghost b = reader.data();
    let ghost len = labels.code_length();
    let ghost whole = read_type_infos(b, reader.position() as int, n as int, pool@, labels.map(), len);
    let mut v: Vec<VerificationTypeInfo> = Vec::new();
    let mut i: u16 = 0;
    assert(infos_view(v@) + Seq::<TypeInfoModel>::empty() =~= Seq::<TypeInfoModel>::empty());
    assert(whole == match whole {
        CodeRead::Read(is, end, m3) => CodeRead::Read(infos_view(v@) + is, end, m3),
        CodeRead::Fail(e) => CodeRead::<Seq<TypeInfoModel>>::Fail(e),
        CodeRead::Overflow => CodeRead::Overflow,
    }) by {
        if let CodeRead::Read(is, end, m3) = whole {
            assert(infos_view(v@) + is =~= is);
        }
    }
    while i < n
        invariant
            reader.data() == b,
            b == old(reader).data(),
            labels.wf(),
            labels.code_length() == len,
            len == old(labels).code_length(),
            i <= n,
            whole == read_type_infos(old(reader).data(), old(reader).position() as int, n as int, pool@, old(labels).map(), old(labels).code_length()),
            whole == match read_type_infos(b, reader.position() as int, n - i, pool@, labels.map(), len) {
                CodeRead::Read(is, end, m3) => CodeRead::Read(infos_view(v@) + is, end, m3),
                CodeRead::Fail(e) => CodeRead::Fail(e),
                CodeRead::Overflow => CodeRead::Overflow,
            },
        decreases n - i,
    {
        let x = match read_verification_type_info(reader, pool, labels) {
            Ok(x) => x,
            Err(e) => { return Err(e); },
        };
        let ghost xv = x@;
        let ghost before = v@;
        v.push(x);
        proof {
            assert(infos_view(v@) =~= infos_view(before).push(xv));
            match read_type_infos(b, reader.position() as int, n - i - 1, pool@, labels.map(), len) {
                CodeRead::Read(is, end, m3) => {
                    assert(infos_view(before) + (seq![xv] + is) =~= infos_view(v@) + is);
                },
                _ => {},
            }
        }
        i = i + 1;
    }
    proof {
        assert(infos_view(v@) + Seq::<TypeInfoModel>::empty() =~= infos_view(v@));
    }
    Ok(v)
}

/// Reads a two-byte count, then that many type infos.
pub(crate) fn read_counted_type_info_vec(reader: &mut ClassReader, pool: &PoolRead, labels: &mut Labels)
    -> (r: Result<Vec<VerificationTypeInfo>, Error>)
    requires
        old(labels).wf(),
    ensures
        final(reader).data() == old(reader).data(),
        final(labels).wf(),
        final(labels).code_length() == old(labels).code_length(),
        match read_counted_type_infos(old(reader).data(), old(reader).position() as int, pool@, old(labels).map(), old(labels).code_length()) {
            CodeRead::Read(is, end, m2) => r matches Ok(v) && infos_view(v@) == is && final(reader).position() == end
                && final(labels).map() == m2,
            CodeRead::Fail(e) => r is Err && r == Err::<Vec<VerificationTypeInfo>, Error>(e),
            CodeRead::Overflow => false,
        },
{
    let n = reader.read_u16()?;
    read_type_info_vec(reader, pool, labels, n)
}

/// Reads one frame of a `StackMapTable`: its offset delta and what it says.
pub fn read_stack_map_frame(reader: &mut ClassReader, pool: &PoolRead, labels: &mut Labels)
    -> (r: Result<(u16, StackMapData), Error>)
    requires
        old(labels).wf(),
    ensures
        final(reader).data() == old(reader).data(),
        final(labels).wf(),
        final(labels).code_length() == old(labels).code_length(),
        match read_frame(old(reader).data(), old(reader).position() as int, pool@, old(labels).map(), old(labels).code_length()) {
            CodeRead::Read((delta, f), end, m2) => r matches Ok((d, x)) && d == delta && x@ == f
                && final(reader).position() == end && final(labels).map() == m2,
            CodeRead::Fail(e) => r is Err && r == Err::<(u16, StackMapData), Error>(e),
            CodeRead::Overflow => false,
        },
{
    let frame_type = reader.read_u8()?;
    if frame_type <= 63 {
        Ok((frame_type as u16, StackMapData::Same))
    } else if frame_type <= 127 {
        let stack = read_verification_type_info(reader, pool, labels)?;
        Ok(((frame_type - 64) as u16, StackMapData::SameLocals1StackItem { stack }))
    } else if frame_type <= 246 {
        Err(Error::UnknownTag)
    } else {
        let offset_delta = reader.read_u16()?;
        if frame_type == 247 {
            let stack = read_verification_type_info(reader, pool, labels)?;
            Ok((offset_delta, StackMapData::SameLocals1StackItem { stack }))
        } else if frame_type <= 250 {
            Ok((offset_delta, StackMapData::Chop { k: 251 - frame_type }))
        } else if frame_type == 251 {
            Ok((offset_delta, StackMapData::Same))
        } else if frame_type <= 254 {
            let locals = read_type_info_vec(reader, pool, labels, (frame_type - 251) as u16)?;
            Ok((offset_delta, StackMapData::Append { locals }))
        } else {
            let locals = read_counted_type_info_vec(reader, pool, labels)?;
            let stack = read_counted_type_info_vec(reader, pool, labels)?;
            Ok((offset_delta, StackMapData::Full { locals, stack }))
        }
    }
}

/// The frame types of a `StackMapTable`, as the JVMS gives them: `0..=63` is
/// a `same_frame` whose offset delta is the type itself; `64..=127` a
/// `same_locals_1_stack_item_frame` with delta `type - 64` and one stack item;
/// `128..=246` are refused; `247` is the extended form of the one-item frame;
/// `248..=250` a `chop_frame` that removes `251 - type` locals; `251` the
/// extended `same_frame`; `252..=254` an `append_frame` that adds `type - 251`
/// locals; `255` a `full_frame`. The offset delta of types `247` and above is
/// the two bytes after the type.
pub proof fn lemma_frame_types(b: Seq<u8>, pos: int, p: Seq<Option<EntryModel>>, m: Map<u16, Label>, len: u16)
    requires
        0 <= pos < b.len(),
    ensures
        ({
            let t = b[pos];
            let r = read_frame(b, pos, p, m, len);
            &&& t <= 63 ==> r == CodeRead::Read((t as u16, StackMapData::Same@), pos + 1, m)
            &&& 64 <= t <= 127 ==> (r matches CodeRead::Read((delta, f), _, _)
                ==> delta == t - 64 && f.kind == 1 && f.locals.len() == 0 && f.stack.len() == 1)
            &&& 128 <= t <= 246 ==> r == CodeRead::<(u16, FrameModel)>::Fail(Error::UnknownTag)
            &&& t >= 247 && pos + 3 <= b.len() ==> (r matches CodeRead::Read((delta, f), _, _)
                ==> delta == b[pos + 1] * 256 + b[pos + 2])
            &&& t == 247 ==> (r matches CodeRead::Read((delta, f), _, _)
                ==> f.kind == 1 && f.locals.len() == 0 && f.stack.len() == 1)
            &&& 248 <= t <= 250 && pos + 3 <= b.len() ==> r == CodeRead::Read(
                (be_u16(b, pos + 1), StackMapData::Chop { k: (251 - t) as u8 }@), pos + 3, m)
            &&& t == 251 && pos + 3 <= b.len() ==> r == CodeRead::Read((be_u16(b, pos + 1), StackMapData::Same@), pos + 3, m)
            &&& 252 <= t <= 254 ==> (r matches CodeRead::Read((delta, f), _, _)
                ==> f.kind == 3 && f.locals.len() == t - 251 && f.stack.len() == 0)
            &&& t == 255 ==> (r matches CodeRead::Read((delta, f), _, _) ==> f.kind == 4)
        }),
{
    let t = b[pos];
    if 252 <= t <= 254 && pos + 3 <= b.len() {
        lemma_type_infos_len(b, pos + 3, t - 251, p, m, len);
    }
}

/// Reading `n` type infos gives `n` of them.
proof fn lemma_type_infos_len(b: Seq<u8>, pos: int, n: int, p: Seq<Option<EntryModel>>, m: Map<u16, Label>, len: u16)
    requires
        n >= 0,
    ensures
        read_type_infos(b, pos, n, p, m, len) matches CodeRead::Read(v, _, _) ==> v.len() == n,
    decreases n,
{
    if n > 0 {
        if let CodeRead::Read(i, pos2, m2) = read_type_info(b, pos, p, m, len) {
            lemma_type_infos_len(b, pos2, n - 1, p, m2, len);
        }
    }
}

/// The verification types of a frame, as the JVMS tags them: `0` top, `1`
/// integer, `2` float, `3` double, `4` long, `5` null, `6` uninitialized
/// `this`, `7` an object of a class, `8` an uninitialized object; other tags
/// are refused. A tag up to `6` is read as the type with that tag.
pub proof fn lemma_verification_type_tags(b: Seq<u8>, pos: int, p: Seq<Option<EntryModel>>, m: Map<u16, Label>,
    len: u16, c: ClassName, l: Label)
    requires
        0 <= pos < b.len(),
    ensures
        VerificationTypeInfo::Top@.tag == 0,
        VerificationTypeInfo::Integer@.tag == 1,
        VerificationTypeInfo::Float@.tag == 2,
        VerificationTypeInfo::Double@.tag == 3,
        VerificationTypeInfo::Long@.tag == 4,
        VerificationTypeInfo::Null@.tag == 5,
        VerificationTypeInfo::UninitializedThis@.tag == 6,
        VerificationTypeInfo::Object(c)@.tag == 7,
        VerificationTypeInfo::Uninitialized(l)@.tag == 8,
        b[pos] <= 6 ==> (read_type_info(b, pos, p, m, len) matches CodeRead::Read(i, end, _) && i.tag == b[pos]
            && end == pos + 1),
        b[pos] > 8 ==> read_type_info(b, pos, p, m, len) == CodeRead::<TypeInfoModel>::Fail(Error::UnknownTag),
{
}

} // verus!


