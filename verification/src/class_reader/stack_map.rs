//! Reading the `StackMapTable` attribute, and the older `StackMap` attribute,
//! into frames at labels.
use vstd::prelude::*;
use crate::bytes::{ClassReader, be_u16};
use crate::class_reader::frames::{
    FrameModel, StackMapData, read_counted_type_info_vec, read_counted_type_infos, read_frame, read_stack_map_frame,
};
use crate::class_reader::instructions::frames_view;
use crate::class_reader::labels::{CodeRead, Labels, add_label};
use crate::class_reader::pool::{EntryModel, PoolRead};
use crate::error::Error;
use crate::tree::code::Label;

verus! {

/// Reading `n` frames of a `StackMapTable` from `pos` on, the previous frame
/// being at the offset `prev` (`None` before the first frame). The offset of a
/// frame is its delta, plus one more than the previous offset after the first
/// frame; each offset gets a label.
pub open spec fn read_frames(b: Seq<u8>, pos: int, n: int, p: Seq<Option<EntryModel>>, m: Map<u16, Label>, len: u16,
    prev: Option<u16>) -> CodeRead<Seq<(Label, FrameModel)>>
    decreases n,
{
    if n <= 0 {
        CodeRead::Read(Seq::empty(), pos, m)
    } else {
        match read_frame(b, pos, p, m, len) {
            CodeRead::Read((delta, f), p2, m2) => {
                let offset = match prev {
                    Some(o) => o + delta + 1,
                    None => delta as int,
                };
                if offset > 0xFFFF {
                    CodeRead::Overflow
                } else if offset >= len {
                    CodeRead::Fail(Error::LabelOutOfBounds)
                } else {
                    let m3 = add_label(m2, offset as u16);
                    match read_frames(b, p2, n - 1, p, m3, len, Some(offset as u16)) {
                        CodeRead::Read(rest, end, m4) => CodeRead::Read(seq![(m3[offset as u16], f)] + rest, end, m4),
                        CodeRead::Fail(e) => CodeRead::Fail(e),
                        CodeRead::Overflow => CodeRead::Overflow,
                    }
                }
            },
            CodeRead::Fail(e) => CodeRead::Fail(e),
            CodeRead::Overflow => CodeRead::Overflow,
        }
    }
}

/// Reading the contents of a `StackMapTable` attribute at `pos`: a two-byte
/// count, then the frames.
pub open spec fn read_stack_map_table_at(b: Seq<u8>, pos: int, p: Seq<Option<EntryModel>>, m: Map<u16, Label>, len: u16)
    -> CodeRead<Seq<(Label, FrameModel)>>
{
    if pos + 2 > b.len() {
        CodeRead::Fail(Error::UnexpectedEnd)
    } else {
        read_frames(b, pos + 2, be_u16(b, pos) as int, p, m, len, None)
    }
}

/// Frames read first, then the outcome of reading the rest.
pub open spec fn prefixed_frames(done: Seq<(Label, FrameModel)>, r: CodeRead<Seq<(Label, FrameModel)>>)
    -> CodeRead<Seq<(Label, FrameModel)>>
{
    match r {
        CodeRead::Read(rest, end, m) => CodeRead::Read(done + rest, end, m),
        other => other,
    }
}

/// Reads the contents of a `StackMapTable` attribute: each frame with the label
/// of its offset.
pub fn read_stack_map_table(reader: &mut ClassReader, pool: &PoolRead, labels: &mut Labels)
    -> (r: Result<Vec<(Label, StackMapData)>, Error>)
    requires
        old(labels).wf(),
        !(read_stack_map_table_at(old(reader).data(), old(reader).position() as int, pool@, old(labels).map(),
            old(labels).code_length()) is Overflow),
    ensures
        final(reader).data() == old(reader).data(),
        final(labels).wf(),
        final(labels).code_length() == old(labels).code_length(),
        match read_stack_map_table_at(old(reader).data(), old(reader).position() as int, pool@, old(labels).map(),
            old(labels).code_length()) {
            CodeRead::Read(fs, end, m2) => r matches Ok(v) && frames_view(v@) == fs && final(reader).position() == end
                && final(labels).map() == m2,
            CodeRead::Fail(e) => r == Err::<Vec<(Label, StackMapData)>, Error>(e),
            CodeRead::Overflow => false,
        },
{
    let ghost b = reader.data();
    let ghost len = labels.code_length();
    let ghost whole = read_stack_map_table_at(b, reader.position() as int, pool@, labels.map(), len);
    let n = reader.read_u16()?;
    let mut frames: Vec<(Label, StackMapData)> = Vec::new();
    let mut offset: u16 = 0;
    let mut i: u16 = 0;
    assert(whole == prefixed_frames(frames_view(frames@), whole)) by {
        if let CodeRead::Read(rest, end, m) = whole {
            assert(frames_view(frames@) + rest =~= rest);
        }
    }
    while i < n
        invariant
            reader.data() == b,
            b == old(reader).data(),
            labels.wf(),
            labels.code_length() == len,
            len == old(labels).code_length(),
            i <= n,
            whole == read_stack_map_table_at(old(reader).data(), old(reader).position() as int, pool@, old(labels).map(),
                old(labels).code_length()),
            !(whole is Overflow),
            whole == prefixed_frames(frames_view(frames@), read_frames(b, reader.position() as int, n - i, pool@,
                labels.map(), len, if i == 0 { None } else { Some(offset) })),
        decreases n - i,
    {
        let ghost pos = reader.position() as int;
        let ghost prev: Option<u16> = if i == 0 { None } else { Some(offset) };
        let (delta, frame) = match read_stack_map_frame(reader, pool, labels) {
            Ok(x) => x,
            Err(e) => { return Err(e); },
        };
        let next: u16 = if i == 0 { delta } else { offset + delta + 1 };
        let label = match labels.get_or_create(next) {
            Ok(l) => l,
            Err(e) => { return Err(e); },
        };
        offset = next;
        let ghost fv = frames_view(frames@);
        let ghost item = (label, frame@);
        frames.push((label, frame));
        proof {
            assert(frames_view(frames@) =~= fv.push(item));
            if let CodeRead::Read(rest, end, m4) = read_frames(b, reader.position() as int, n - i - 1, pool@, labels.map(), len, Some(offset)) {
                assert(fv + (seq![item] + rest) =~= frames_view(frames@) + rest);
            }
        }
        i = i + 1;
    }
    proof {
        assert(frames_view(frames@) + Seq::<(Label, FrameModel)>::empty() =~= frames_view(frames@));
    }
    Ok(frames)
}

/// Reading `n` entries of a `StackMap` attribute from `pos` on: each has its
/// offset, which gets a label, then the locals and the stack, as a full frame.
pub open spec fn read_full_frames(b: Seq<u8>, pos: int, n: int, p: Seq<Option<EntryModel>>, m: Map<u16, Label>, len: u16)
    -> CodeRead<Seq<(Label, FrameModel)>>
    decreases n,
{
    if n <= 0 {
        CodeRead::Read(Seq::empty(), pos, m)
    } else if pos + 2 > b.len() {
        CodeRead::Fail(Error::UnexpectedEnd)
    } else {
        let offset = be_u16(b, pos);
        match read_counted_type_infos(b, pos + 2, p, m, len) {
            CodeRead::Read(locals, p2, m2) => match read_counted_type_infos(b, p2, p, m2, len) {
                CodeRead::Read(stack, p3, m3) => if offset >= len {
                    CodeRead::Fail(Error::LabelOutOfBounds)
                } else {
                    let m4 = add_label(m3, offset);
                    let f = FrameModel { kind: 4, k: 0, locals, stack };
                    match read_full_frames(b, p3, n - 1, p, m4, len) {
                        CodeRead::Read(rest, end, m5) => CodeRead::Read(seq![(m4[offset], f)] + rest, end, m5),
                        CodeRead::Fail(e) => CodeRead::Fail(e),
                        CodeRead::Overflow => CodeRead::Overflow,
                    }
                },
                CodeRead::Fail(e) => CodeRead::Fail(e),
                CodeRead::Overflow => CodeRead::Overflow,
            },
            CodeRead::Fail(e) => CodeRead::Fail(e),
            CodeRead::Overflow => CodeRead::Overflow,
        }
    }
}

/// Reading the contents of a `StackMap` attribute at `pos`: a two-byte count,
/// then the entries, in the order they are stored.
pub open spec fn read_stack_map_at(b: Seq<u8>, pos: int, p: Seq<Option<EntryModel>>, m: Map<u16, Label>, len: u16)
    -> CodeRead<Seq<(Label, FrameModel)>>
{
    if pos + 2 > b.len() {
        CodeRead::Fail(Error::UnexpectedEnd)
    } else {
        read_full_frames(b, pos + 2, be_u16(b, pos) as int, p, m, len)
    }
}

/// `s`, ordered by label ids, with `x` put after the last frame whose label
/// id is not greater than its own.
pub open spec fn insert_by_label(s: Seq<(Label, FrameModel)>, x: (Label, FrameModel)) -> Seq<(Label, FrameModel)>
    decreases s.len(),
{
    if s.len() == 0 {
        seq![x]
    } else if s.last().0.id <= x.0.id {
        s.push(x)
    } else {
        insert_by_label(s.drop_last(), x).push(s.last())
    }
}

/// The frames of `s` ordered by the ids of their labels; frames with equal ids
/// keep their order.
pub open spec fn sort_by_label(s: Seq<(Label, FrameModel)>) -> Seq<(Label, FrameModel)>
    decreases s.len(),
{
    if s.len() == 0 {
        Seq::empty()
    } else {
        insert_by_label(sort_by_label(s.drop_last()), s.last())
    }
}

/// Inserting at the place found by walking back over larger ids.
proof fn lemma_insert_by_label(s: Seq<(Label, FrameModel)>, x: (Label, FrameModel), j: int)
    requires
        0 <= j <= s.len(),
        forall|i: int| j <= i < s.len() ==> s[i].0.id > x.0.id,
        j == 0 || s[j - 1].0.id <= x.0.id,
    ensures
        insert_by_label(s, x) == s.insert(j, x),
    decreases s.len(),
{
    if s.len() == 0 {
        assert(s.insert(j, x) =~= seq![x]);
    } else if j == s.len() {
        assert(s.insert(j, x) =~= s.push(x));
    } else {
        let t = s.drop_last();
        assert forall|i: int| j <= i < t.len() implies t[i].0.id > x.0.id by {
            assert(t[i] == s[i]);
        }
        if j > 0 {
            assert(t[j - 1] == s[j - 1]);
        }
        lemma_insert_by_label(t, x, j);
        assert(t.insert(j, x).push(s.last()) =~= s.insert(j, x));
    }
}

/// Reads the contents of a `StackMap` attribute, the format that came before
/// `StackMapTable`: its entries as full frames at the labels of their offsets,
/// ordered by label.
pub fn read_stack_map(reader: &mut ClassReader, pool: &PoolRead, labels: &mut Labels)
    -> (r: Result<Vec<(Label, StackMapData)>, Error>)
    requires
        old(labels).wf(),
    ensures
        final(reader).data() == old(reader).data(),
        final(labels).wf(),
        final(labels).code_length() == old(labels).code_length(),
        match read_stack_map_at(old(reader).data(), old(reader).position() as int, pool@, old(labels).map(),
            old(labels).code_length()) {
            CodeRead::Read(fs, end, m2) => r matches Ok(v) && frames_view(v@) == sort_by_label(fs)
                && final(reader).position() == end && final(labels).map() == m2,
            CodeRead::Fail(e) => r == Err::<Vec<(Label, StackMapData)>, Error>(e),
            CodeRead::Overflow => false,
        },
{
    let ghost b = reader.data();
    let ghost len = labels.code_length();
    let n = reader.read_u16()?;
    let ghost whole = read_full_frames(b, reader.position() as int, n as int, pool@, labels.map(), len);
    let mut frames: Vec<(Label, StackMapData)> = Vec::new();
    let mut i: u16 = 0;
    assert(whole == prefixed_frames(frames_view(frames@), whole)) by {
        if let CodeRead::Read(rest, end, m) = whole {
            assert(frames_view(frames@) + rest =~= rest);
        }
    }
    while i < n
        invariant
            reader.data() == b,
            b == old(reader).data(),
            old(reader).position() + 2 <= b.len(),
            n == be_u16(b, old(reader).position() as int),
            labels.wf(),
            labels.code_length() == len,
            len == old(labels).code_length(),
            i <= n,
            whole == read_full_frames(b, old(reader).position() + 2int, n as int, pool@, old(labels).map(), len),
            whole == prefixed_frames(frames_view(frames@), read_full_frames(b, reader.position() as int, n - i, pool@,
                labels.map(), len)),
        decreases n - i,
    {
        let ghost pos = reader.position() as int;
        let offset = match reader.read_u16() {
            Ok(x) => x,
            Err(e) => { return Err(e); },
        };
        let locals = match read_counted_type_info_vec(reader, pool, labels) {
            Ok(x) => x,
            Err(e) => { return Err(e); },
        };
        let stack = match read_counted_type_info_vec(reader, pool, labels) {
            Ok(x) => x,
            Err(e) => { return Err(e); },
        };
        let label = match labels.get_or_create(offset) {
            Ok(l) => l,
            Err(e) => { return Err(e); },
        };
        let frame = StackMapData::Full { locals, stack };
        let ghost fv = frames_view(frames@);
        let ghost item = (label, frame@);
        frames.push((label, frame));
        proof {
            assert(frames_view(frames@) =~= fv.push(item));
            if let CodeRead::Read(rest, end, m4) = read_full_frames(b, reader.position() as int, n - i - 1, pool@, labels.map(), len) {
                assert(fv + (seq![item] + rest) =~= frames_view(frames@) + rest);
            }
        }
        i = i + 1;
    }
    proof {
        assert(frames_view(frames@) + Seq::<(Label, FrameModel)>::empty() =~= frames_view(frames@));
    }
    let ghost orig = frames_view(frames@);
    let mut sorted: Vec<(Label, StackMapData)> = Vec::new();
    let ghost mut k: int = 0;
    assert(orig.take(0) =~= Seq::<(Label, FrameModel)>::empty());
    assert(orig.skip(0) =~= orig);
    while frames.len() > 0
        invariant
            0 <= k <= orig.len(),
            frames_view(frames@) == orig.skip(k),
            frames_view(sorted@) == sort_by_label(orig.take(k)),
        decreases frames@.len(),
    {
        let ghost before = frames@;
        proof {
            assert(frames_view(before).len() == before.len());
            assert(frames_view(before)[0] == (before[0].0, before[0].1@));
        }
        let x = frames.remove(0);
        let ghost xv = (x.0, x.1@);
        proof {
            assert(frames@ == before.remove(0));
            assert(orig.skip(k)[0] == orig[k]);
            assert(xv == orig[k]);
            assert forall|q: int| 0 <= q < frames@.len() implies #[trigger] frames_view(frames@)[q] == orig.skip(k + 1)[q] by {
                assert(frames@[q] == before[q + 1]);
                assert(frames_view(before)[q + 1] == orig.skip(k)[q + 1]);
            }
            assert(frames_view(frames@) =~= orig.skip(k + 1));
        }
        let mut j = sorted.len();
        while j > 0 && sorted[j - 1].0.id > x.0.id
            invariant
                j <= sorted@.len(),
                forall|q: int| j <= q < sorted@.len() ==> sorted@[q].0.id > x.0.id,
            decreases j,
        {
            j = j - 1;
        }
        let ghost sv = frames_view(sorted@);
        proof {
            assert forall|q: int| j <= q < sv.len() implies sv[q].0.id > xv.0.id by {
                assert(sv[q].0 == sorted@[q].0);
            }
            if j > 0 {
                assert(sv[j - 1].0 == sorted@[j - 1].0);
            }
            lemma_insert_by_label(sv, xv, j as int);
            assert(orig.take(k + 1).drop_last() =~= orig.take(k));
            assert(orig.take(k + 1).last() == orig[k]);
        }
        sorted.insert(j, x);
        proof {
            assert(frames_view(sorted@) =~= sv.insert(j as int, xv));
            k = k + 1;
        }
    }
    proof {
        assert(orig.take(k) =~= orig);
    }
    Ok(sorted)
}

} // verus!
