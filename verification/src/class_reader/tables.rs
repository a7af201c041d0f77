//! Reading the tables of a `Code` attribute that refer to bytecode offsets:
//! the exception table, the line numbers and the local variables.
use vstd::prelude::*;
use crate::bytes::{ClassReader, be_u16};
use crate::class_reader::labels::{Labels, CodeRead, add_label};
use crate::class_reader::pool::{EntryModel, PoolRead, pool_utf8};
use crate::class_reader::pool_optional_class;
use crate::error::Error;
use crate::tree::code::{Exception, ExceptionModel, Label, LocalVariableName, Lv, LvIndex, LvModel};
use crate::tree::descriptor::valid_field_descriptor;
use crate::tree::field::{FieldDescriptor, FieldSignature};
use crate::tree::names::valid_unqualified_name;
use crate::tree::type_annotation::range_at;

verus! {

/// Reading `n` entries from `pos` on, each with `entry`, starting with the labels `m`.
pub open spec fn read_entries<T>(entry: spec_fn(int, Map<u16, Label>) -> CodeRead<T>, pos: int, n: int, m: Map<u16, Label>)
    -> CodeRead<Seq<T>>
    decreases n,
{
    if n <= 0 {
        CodeRead::Read(Seq::empty(), pos, m)
    } else {
        match entry(pos, m) {
            CodeRead::Read(x, next, m2) => match read_entries(entry, next, n - 1, m2) {
                CodeRead::Read(rest, end, m3) => CodeRead::Read(seq![x] + rest, end, m3),
                CodeRead::Fail(e) => CodeRead::Fail(e),
                CodeRead::Overflow => CodeRead::Overflow,
            },
            CodeRead::Fail(e) => CodeRead::Fail(e),
            CodeRead::Overflow => CodeRead::Overflow,
        }
    }
}

/// Reading a table at `pos`: a two-byte count, then the entries.
pub open spec fn read_table<T>(b: Seq<u8>, pos: int, m: Map<u16, Label>, entry: spec_fn(int, Map<u16, Label>) -> CodeRead<T>)
    -> CodeRead<Seq<T>>
{
    if pos + 2 > b.len() {
        CodeRead::Fail(Error::UnexpectedEnd)
    } else {
        read_entries(entry, pos + 2, be_u16(b, pos) as int, m)
    }
}

/// Reading an entry of the exception table at `pos`: the start, end and
/// handler offsets, each of which must lie in the code of length `len` and gets
/// a label, then the index of the caught class (zero for any).
pub open spec fn exception_entry(b: Seq<u8>, p: Seq<Option<EntryModel>>, len: u16, pos: int, m: Map<u16, Label>)
    -> CodeRead<ExceptionModel>
{
    let s = be_u16(b, pos);
    let e = be_u16(b, pos + 2);
    let h = be_u16(b, pos + 4);
    let m1 = add_label(m, s);
    let m2 = add_label(m1, e);
    let m3 = add_label(m2, h);
    if pos + 2 > b.len() {
        CodeRead::Fail(Error::UnexpectedEnd)
    } else if s >= len {
        CodeRead::Fail(Error::LabelOutOfBounds)
    } else if pos + 4 > b.len() {
        CodeRead::Fail(Error::UnexpectedEnd)
    } else if e >= len {
        CodeRead::Fail(Error::LabelOutOfBounds)
    } else if pos + 6 > b.len() {
        CodeRead::Fail(Error::UnexpectedEnd)
    } else if h >= len {
        CodeRead::Fail(Error::LabelOutOfBounds)
    } else if pos + 8 > b.len() {
        CodeRead::Fail(Error::UnexpectedEnd)
    } else {
        match pool_optional_class(p, be_u16(b, pos + 6)) {
            Ok(catch) => CodeRead::Read(
                ExceptionModel { start: m1[s], end: m2[e], handler: m3[h], catch },
                pos + 8,
                m3,
            ),
            Err(x) => CodeRead::Fail(x),
        }
    }
}

/// The exception entry reader of `b`, with the pool `p` and code of length `len`.
pub open spec fn exception_item(b: Seq<u8>, p: Seq<Option<EntryModel>>, len: u16) -> spec_fn(int, Map<u16, Label>) -> CodeRead<ExceptionModel> {
    |pos: int, m: Map<u16, Label>| exception_entry(b, p, len, pos, m)
}

/// The models of a sequence of exception entries.
pub open spec fn exceptions_view(s: Seq<Exception>) -> Seq<ExceptionModel> {
    s.map_values(|x: Exception| x@)
}

/// Reads one entry of the exception table.
fn read_exception(reader: &mut ClassReader, labels: &mut Labels, pool: &PoolRead) -> (r: Result<Exception, Error>)
    requires
        old(labels).wf(),
    ensures
        final(reader).data() == old(reader).data(),
        final(labels).wf(),
        final(labels).code_length() == old(labels).code_length(),
        match exception_entry(old(reader).data(), pool@, old(labels).code_length(), old(reader).position() as int, old(labels).map()) {
            CodeRead::Read(x, end, m2) => r matches Ok(v) && v@ == x && final(reader).position() == end
                && final(labels).map() == m2,
            CodeRead::Fail(e) => r == Err::<Exception, Error>(e),
            CodeRead::Overflow => false,
        },
{
    let start = labels.get_or_create(reader.read_u16()?)?;
    let end = labels.get_or_create(reader.read_u16()?)?;
    let handler = labels.get_or_create(reader.read_u16()?)?;
    let index = reader.read_u16()?;
    let catch = pool.get_optional(index, PoolRead::get_class)?;
    Ok(Exception { start, end, handler, catch })
}

/// Reads the exception table of a `Code` attribute: a two-byte count, then the
/// entries. Each offset gets a label.
///
/// On failure the labels of the entries before the failing one are kept.
pub fn read_exception_table(reader: &mut ClassReader, labels: &mut Labels, pool: &PoolRead) -> (r: Result<Vec<Exception>, Error>)
    requires
        old(labels).wf(),
    ensures
        final(reader).data() == old(reader).data(),
        final(labels).wf(),
        final(labels).code_length() == old(labels).code_length(),
        match read_table(old(reader).data(), old(reader).position() as int, old(labels).map(),
            exception_item(old(reader).data(), pool@, old(labels).code_length())) {
            CodeRead::Read(t, end, m2) => r matches Ok(v) && exceptions_view(v@) == t
                && final(reader).position() == end && final(labels).map() == m2,
            CodeRead::Fail(e) => r == Err::<Vec<Exception>, Error>(e),
            CodeRead::Overflow => false,
        },
{
    let ghost b = reader.data();
    let ghost len = labels.code_length();
    let ghost item = exception_item(b, pool@, len);
    let ghost whole = read_table(b, reader.position() as int, labels.map(), item);
    let length = reader.read_u16()?;
    let mut table: Vec<Exception> = Vec::new();
    let mut i: u16 = 0;
    assert(exceptions_view(table@) + Seq::<ExceptionModel>::empty() =~= Seq::<ExceptionModel>::empty());
    while i < length
        invariant
            reader.data() == b,
            b == old(reader).data(),
            labels.wf(),
            labels.code_length() == len,
            len == old(labels).code_length(),
            item == exception_item(b, pool@, len),
            whole == read_table(old(reader).data(), old(reader).position() as int, old(labels).map(),
                exception_item(old(reader).data(), pool@, old(labels).code_length())),
            i <= length,
            whole == match read_entries(item, reader.position() as int, length - i, labels.map()) {
                CodeRead::Read(rest, end, m3) => CodeRead::Read(exceptions_view(table@) + rest, end, m3),
                CodeRead::Fail(e) => CodeRead::Fail(e),
                CodeRead::Overflow => CodeRead::Overflow,
            },
        decreases length - i,
    {
        let ghost pos = reader.position() as int;
        let ghost m = labels.map();
        assert(item(pos, m) == exception_entry(b, pool@, len, pos, m));
        let entry = match read_exception(reader, labels, pool) {
            Ok(x) => x,
            Err(e) => { return Err(e); },
        };
        proof {
            let ghost v = exceptions_view(table@);
            assert(exceptions_view(table@.push(entry)) =~= v.push(entry@));
            match read_entries(item, reader.position() as int, length - i - 1, labels.map()) {
                CodeRead::Read(rest, end, m3) => {
                    assert(v + (seq![entry@] + rest) =~= v.push(entry@) + rest);
                },
                _ => {},
            }
        }
        table.push(entry);
        i = i + 1;
    }
    proof {
        assert(exceptions_view(table@) + Seq::<ExceptionModel>::empty() =~= exceptions_view(table@));
    }
    Ok(table)
}

/// Reading an entry of the line number table at `pos`: the start offset,
/// which must lie in the code of length `len` and gets a label, then the line
/// number.
pub open spec fn line_number_entry(b: Seq<u8>, len: u16, pos: int, m: Map<u16, Label>) -> CodeRead<(Label, u16)> {
    let s = be_u16(b, pos);
    let m1 = add_label(m, s);
    if pos + 2 > b.len() {
        CodeRead::Fail(Error::UnexpectedEnd)
    } else if s >= len {
        CodeRead::Fail(Error::LabelOutOfBounds)
    } else if pos + 4 > b.len() {
        CodeRead::Fail(Error::UnexpectedEnd)
    } else {
        CodeRead::Read((m1[s], be_u16(b, pos + 2)), pos + 4, m1)
    }
}

/// The line number entry reader of `b`, for code of length `len`.
pub open spec fn line_number_item(b: Seq<u8>, len: u16) -> spec_fn(int, Map<u16, Label>) -> CodeRead<(Label, u16)> {
    |pos: int, m: Map<u16, Label>| line_number_entry(b, len, pos, m)
}

/// Reads the `LineNumberTable` attribute's contents: a two-byte count, then
/// pairs of a start offset, which gets a label, and a line number.
pub fn read_line_number_table(reader: &mut ClassReader, labels: &mut Labels) -> (r: Result<Vec<(Label, u16)>, Error>)
    requires
        old(labels).wf(),
    ensures
        final(reader).data() == old(reader).data(),
        final(labels).wf(),
        final(labels).code_length() == old(labels).code_length(),
        match read_table(old(reader).data(), old(reader).position() as int, old(labels).map(),
            line_number_item(old(reader).data(), old(labels).code_length())) {
            CodeRead::Read(t, end, m2) => r matches Ok(v) && v@ == t
                && final(reader).position() == end && final(labels).map() == m2,
            CodeRead::Fail(e) => r == Err::<Vec<(Label, u16)>, Error>(e),
            CodeRead::Overflow => false,
        },
{
    let ghost b = reader.data();
    let ghost len = labels.code_length();
    let ghost item = line_number_item(b, len);
    let ghost whole = read_table(b, reader.position() as int, labels.map(), item);
    let length = reader.read_u16()?;
    let mut table: Vec<(Label, u16)> = Vec::new();
    let mut i: u16 = 0;
    assert(table@ + Seq::<(Label, u16)>::empty() =~= Seq::<(Label, u16)>::empty());
    while i < length
        invariant
            reader.data() == b,
            b == old(reader).data(),
            labels.wf(),
            labels.code_length() == len,
            len == old(labels).code_length(),
            item == line_number_item(b, len),
            whole == read_table(old(reader).data(), old(reader).position() as int, old(labels).map(),
                line_number_item(old(reader).data(), old(labels).code_length())),
            i <= length,
            whole == match read_entries(item, reader.position() as int, length - i, labels.map()) {
                CodeRead::Read(rest, end, m3) => CodeRead::Read(table@ + rest, end, m3),
                CodeRead::Fail(e) => CodeRead::Fail(e),
                CodeRead::Overflow => CodeRead::Overflow,
            },
        decreases length - i,
    {
        let ghost pos = reader.position() as int;
        let ghost m = labels.map();
        assert(item(pos, m) == line_number_entry(b, len, pos, m));
        let start_pc = match reader.read_u16() {
            Ok(x) => x,
            Err(e) => { return Err(e); },
        };
        let start = match labels.get_or_create(start_pc) {
            Ok(x) => x,
            Err(e) => { return Err(e); },
        };
        let line_number = match reader.read_u16() {
            Ok(x) => x,
            Err(e) => { return Err(e); },
        };
        proof {
            match read_entries(item, reader.position() as int, length - i - 1, labels.map()) {
                CodeRead::Read(rest, end, m3) => {
                    assert(table@ + (seq![(start, line_number)] + rest) =~= table@.push((start, line_number)) + rest);
                },
                _ => {},
            }
        }
        table.push((start, line_number));
        i = i + 1;
    }
    proof {
        assert(table@ + Seq::<(Label, u16)>::empty() =~= table@);
    }
    Ok(table)
}

/// Reading an entry of the local variable table at `pos` (of the local
/// variable type table where `typed`): the range, whose offsets get labels, the
/// index of the name, which must be an unqualified name, the index of the
/// descriptor, which must be a valid field descriptor (of the signature, where
/// `typed`), and the index of the local variable.
pub open spec fn local_variable_entry(b: Seq<u8>, p: Seq<Option<EntryModel>>, len: u16, typed: bool, pos: int, m: Map<u16, Label>)
    -> CodeRead<LvModel>
{
    if pos + 4 > b.len() {
        CodeRead::Fail(Error::UnexpectedEnd)
    } else {
        match range_at(m, be_u16(b, pos), be_u16(b, pos + 2), len) {
            CodeRead::Read(range, _, m2) => if pos + 6 > b.len() {
                CodeRead::Fail(Error::UnexpectedEnd)
            } else {
                match pool_utf8(p, be_u16(b, pos + 4)) {
                    Err(e) => CodeRead::Fail(e),
                    Ok(name) => if !valid_unqualified_name(name) {
                        CodeRead::Fail(Error::InvalidName)
                    } else if pos + 8 > b.len() {
                        CodeRead::Fail(Error::UnexpectedEnd)
                    } else {
                        match pool_utf8(p, be_u16(b, pos + 6)) {
                            Err(e) => CodeRead::Fail(e),
                            Ok(d) => if !typed && !valid_field_descriptor(d) {
                                CodeRead::Fail(Error::InvalidDescriptor)
                            } else if pos + 10 > b.len() {
                                CodeRead::Fail(Error::UnexpectedEnd)
                            } else {
                                CodeRead::Read(LvModel {
                                    range,
                                    name,
                                    descriptor: if typed { None } else { Some(d) },
                                    signature: if typed { Some(d) } else { None },
                                    index: LvIndex { index: be_u16(b, pos + 8) },
                                }, pos + 10, m2)
                            },
                        }
                    },
                }
            },
            CodeRead::Fail(e) => CodeRead::Fail(e),
            CodeRead::Overflow => CodeRead::Overflow,
        }
    }
}

/// The local variable entry reader of `b`, with the pool `p` and code of length `len`.
pub open spec fn local_variable_item(b: Seq<u8>, p: Seq<Option<EntryModel>>, len: u16, typed: bool)
    -> spec_fn(int, Map<u16, Label>) -> CodeRead<LvModel>
{
    |pos: int, m: Map<u16, Label>| local_variable_entry(b, p, len, typed, pos, m)
}

/// The models of a sequence of local variables.
pub open spec fn lvs_view(s: Seq<Lv>) -> Seq<LvModel> {
    s.map_values(|x: Lv| x@)
}

/// Reads one entry of the local variable table, or of the local variable type
/// table where `typed`.
fn read_local_variable(reader: &mut ClassReader, labels: &mut Labels, pool: &PoolRead, typed: bool) -> (r: Result<Lv, Error>)
    requires
        old(labels).wf(),
        !(local_variable_entry(old(reader).data(), pool@, old(labels).code_length(), typed,
            old(reader).position() as int, old(labels).map()) is Overflow),
    ensures
        final(reader).data() == old(reader).data(),
        final(labels).wf(),
        final(labels).code_length() == old(labels).code_length(),
        match local_variable_entry(old(reader).data(), pool@, old(labels).code_length(), typed,
            old(reader).position() as int, old(labels).map()) {
            CodeRead::Read(x, end, m2) => r matches Ok(v) && v@ == x && final(reader).position() == end
                && final(labels).map() == m2,
            CodeRead::Fail(e) => r == Err::<Lv, Error>(e),
            CodeRead::Overflow => false,
        },
{
    let start_pc = reader.read_u16()?;
    let length = reader.read_u16()?;
    let range = labels.get_or_create_range(start_pc, length)?;
    let name = LocalVariableName::try_from(pool.get_utf8(reader.read_u16()?)?)?;
    let s = pool.get_utf8(reader.read_u16()?)?;
    let (descriptor, signature) = if typed {
        (None, Some(FieldSignature::from_inner_unchecked(s)))
    } else {
        (Some(FieldDescriptor::try_from(s)?), None)
    };
    let index = LvIndex { index: reader.read_u16()? };
    Ok(Lv { range, name, descriptor, signature, index })
}

/// Reads the contents of a `LocalVariableTable` attribute, or of a
/// `LocalVariableTypeTable` attribute where `typed`: a two-byte count, then the
/// entries. The offsets of each range get labels.
pub fn read_local_variable_table(reader: &mut ClassReader, labels: &mut Labels, pool: &PoolRead, typed: bool)
    -> (r: Result<Vec<Lv>, Error>)
    requires
        old(labels).wf(),
        !(read_table(old(reader).data(), old(reader).position() as int, old(labels).map(),
            local_variable_item(old(reader).data(), pool@, old(labels).code_length(), typed)) is Overflow),
    ensures
        final(reader).data() == old(reader).data(),
        final(labels).wf(),
        final(labels).code_length() == old(labels).code_length(),
        match read_table(old(reader).data(), old(reader).position() as int, old(labels).map(),
            local_variable_item(old(reader).data(), pool@, old(labels).code_length(), typed)) {
            CodeRead::Read(t, end, m2) => r matches Ok(v) && lvs_view(v@) == t
                && final(reader).position() == end && final(labels).map() == m2,
            CodeRead::Fail(e) => r == Err::<Vec<Lv>, Error>(e),
            CodeRead::Overflow => false,
        },
{
    let ghost b = reader.data();
    let ghost len = labels.code_length();
    let ghost item = local_variable_item(b, pool@, len, typed);
    let ghost whole = read_table(b, reader.position() as int, labels.map(), item);
    let length = reader.read_u16()?;
    let mut table: Vec<Lv> = Vec::new();
    let mut i: u16 = 0;
    assert(lvs_view(table@) + Seq::<LvModel>::empty() =~= Seq::<LvModel>::empty());
    while i < length
        invariant
            reader.data() == b,
            b == old(reader).data(),
            labels.wf(),
            labels.code_length() == len,
            len == old(labels).code_length(),
            item == local_variable_item(b, pool@, len, typed),
            whole == read_table(old(reader).data(), old(reader).position() as int, old(labels).map(),
                local_variable_item(old(reader).data(), pool@, old(labels).code_length(), typed)),
            !(whole is Overflow),
            i <= length,
            whole == match read_entries(item, reader.position() as int, length - i, labels.map()) {
                CodeRead::Read(rest, end, m3) => CodeRead::Read(lvs_view(table@) + rest, end, m3),
                CodeRead::Fail(e) => CodeRead::Fail(e),
                CodeRead::Overflow => CodeRead::Overflow,
            },
        decreases length - i,
    {
        let ghost pos = reader.position() as int;
        let ghost m = labels.map();
        assert(item(pos, m) == local_variable_entry(b, pool@, len, typed, pos, m));
        let entry = match read_local_variable(reader, labels, pool, typed) {
            Ok(x) => x,
            Err(e) => { return Err(e); },
        };
        proof {
            let ghost v = lvs_view(table@);
            assert(lvs_view(table@.push(entry)) =~= v.push(entry@));
            match read_entries(item, reader.position() as int, length - i - 1, labels.map()) {
                CodeRead::Read(rest, end, m3) => {
                    assert(v + (seq![entry@] + rest) =~= v.push(entry@) + rest);
                },
                _ => {},
            }
        }
        table.push(entry);
        i = i + 1;
    }
    proof {
        assert(lvs_view(table@) + Seq::<LvModel>::empty() =~= lvs_view(table@));
    }
    Ok(table)
}

/// An entry of the exception table is the start, end and handler offsets and
/// the pool index of the caught class (zero for any), two bytes each, in that
/// order; the labels are those of the three offsets. An entry of the line
/// number table is the start offset, then the line number.
pub proof fn lemma_table_layouts(b: Seq<u8>, p: Seq<Option<EntryModel>>, len: u16, pos: int, m: Map<u16, Label>)
    requires
        0 <= pos,
        pos + 8 <= b.len(),
    ensures
        ({
            let u0 = (b[pos] * 256 + b[pos + 1]) as u16;
            let u1 = (b[pos + 2] * 256 + b[pos + 3]) as u16;
            let u2 = (b[pos + 4] * 256 + b[pos + 5]) as u16;
            let u3 = (b[pos + 6] * 256 + b[pos + 7]) as u16;
            &&& exception_entry(b, p, len, pos, m) matches CodeRead::Read(x, end, m2) ==> {
                &&& m2.contains_key(u0) && x.start == m2[u0]
                &&& m2.contains_key(u1) && x.end == m2[u1]
                &&& m2.contains_key(u2) && x.handler == m2[u2]
                &&& pool_optional_class(p, u3) == Ok::<Option<Seq<u32>>, Error>(x.catch)
                &&& end == pos + 8
            }
            &&& line_number_entry(b, len, pos, m) matches CodeRead::Read((l, line), end, m2) ==> {
                &&& m2.contains_key(u0) && l == m2[u0]
                &&& line == u1
                &&& end == pos + 4
            }
        }),
{
    assert(be_u16(b, pos) == b[pos] * 256 + b[pos + 1]);
    assert(be_u16(b, pos + 2) == b[pos + 2] * 256 + b[pos + 3]);
    assert(be_u16(b, pos + 4) == b[pos + 4] * 256 + b[pos + 5]);
    assert(be_u16(b, pos + 6) == b[pos + 6] * 256 + b[pos + 7]);
}

} // verus!

