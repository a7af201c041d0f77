//! Turning bytecode offsets into [`Label`]s while reading a `Code` attribute.
use vstd::prelude::*;
use std::collections::HashMap;
use crate::error::Error;
use crate::tree::code::{Label, LabelRange};

verus! {

/// The labels after asking for the one at `pc`: an offset that has none gets
/// the next fresh id, which is the number of labels so far.
pub open spec fn add_label(m: Map<u16, Label>, pc: u16) -> Map<u16, Label> {
    if m.contains_key(pc) {
        m
    } else {
        m.insert(pc, Label { id: m.len() as u16 })
    }
}

/// The labels after asking for each offset of `pcs`, in order.
pub open spec fn add_labels(m: Map<u16, Label>, pcs: Seq<u16>) -> Map<u16, Label>
    decreases pcs.len(),
{
    if pcs.len() == 0 {
        m
    } else {
        add_labels(add_label(m, pcs[0]), pcs.skip(1))
    }
}

/// The outcome of reading part of a `Code` attribute that refers to labels.
pub ghost enum CodeRead<T> {
    /// The value read, the position after it, and the labels after it.
    Read(T, int, Map<u16, Label>),
    /// Reading failed.
    Fail(Error),
    /// The end of a range does not fit a `u16`.
    Overflow,
}

/// A finite set of offsets that all lie below `n` has at most `n` elements.
proof fn lemma_offsets_bound(s: Set<u16>, n: int)
    requires
        s.finite(),
        0 <= n,
        forall|k: u16| s.contains(k) ==> (k as int) < n,
    ensures
        s.len() <= n,
{
    let f = |k: u16| k as int;
    let y = s.map(f);
    assert(vstd::relations::injective_on(f, s));
    vstd::set_lib::lemma_map_size(s, y, f);
    vstd::set_lib::lemma_int_range(0, n);
    assert(y.subset_of(vstd::set_lib::set_int_range(0, n)));
    vstd::set_lib::lemma_len_subset(y, vstd::set_lib::set_int_range(0, n));
}

/// A helper for reading bytecode offsets into [`Label`]s.
///
/// Each offset from zero up to the code length gets at most one label; labels
/// are numbered in the order their offsets are first met.
#[derive(Debug)]
pub struct Labels {
    code_length: u16,
    labels: HashMap<u16, Label>,
    max_id: u32,
}

impl Labels {
    /// The length of the code the offsets point into.
    pub closed spec fn code_length(&self) -> u16 {
        self.code_length
    }

    /// The label of each offset that has one.
    pub closed spec fn map(&self) -> Map<u16, Label> {
        self.labels@
    }

    /// Offsets lie within the code (its length included), ids are numbered
    /// from zero without gaps, and no two offsets share an id.
    pub closed spec fn wf(&self) -> bool {
        &&& self.labels@.dom().finite()
        &&& self.max_id as int == self.labels@.len()
        &&& forall|pc: u16| #[trigger] self.labels@.contains_key(pc) ==> pc <= self.code_length
            && (self.labels@[pc].id as int) < self.max_id
        &&& forall|p: u16, q: u16| #[trigger] self.labels@.contains_key(p) && #[trigger] self.labels@.contains_key(q) && p != q
            ==> self.labels@[p].id != self.labels@[q].id
    }

    /// Creates a helper with no labels, for code of length `code_length`.
    pub fn new(code_length: u16) -> (r: Labels)
        ensures
            r.wf(),
            r.code_length() == code_length,
            r.map() == Map::<u16, Label>::empty(),
    {
        Labels { code_length, labels: HashMap::new(), max_id: 0 }
    }

    /// The label at `pc`, which is created if there is none.
    fn get_or_add_unchecked(&mut self, pc: u16) -> (r: Label)
        requires
            old(self).wf(),
            pc <= old(self).code_length(),
        ensures
            final(self).wf(),
            final(self).code_length() == old(self).code_length(),
            final(self).map() == add_label(old(self).map(), pc),
            r == final(self).map()[pc],
    {
        proof {
            broadcast use vstd::std_specs::hash::group_hash_axioms;
        }
        match self.labels.get(&pc) {
            Some(label) => *label,
            None => {
                let ghost m = self.labels@;
                proof {
                    assert forall|k: u16| m.dom().contains(k) implies (k as int) < self.code_length as int + 1 by {
                        assert(m.contains_key(k));
                    }
                    assert(!m.dom().contains(pc));
                    lemma_offsets_bound(m.dom().insert(pc), self.code_length as int + 1);
                }
                let label = Label { id: self.max_id as u16 };
                self.labels.insert(pc, label);
                self.max_id = self.max_id + 1;
                proof {
                    assert(self.labels@.dom() == m.dom().insert(pc));
                    assert forall|p: u16, q: u16| #[trigger] self.labels@.contains_key(p) && #[trigger] self.labels@.contains_key(q) && p != q
                        implies self.labels@[p].id != self.labels@[q].id by {
                        if p != pc && q != pc {
                            assert(m.contains_key(p) && m.contains_key(q));
                        } else if p == pc {
                            assert(m.contains_key(q));
                        } else {
                            assert(m.contains_key(p));
                        }
                    }
                    assert forall|k: u16| #[trigger] self.labels@.contains_key(k) implies k <= self.code_length
                        && (self.labels@[k].id as int) < self.max_id by {
                        if k != pc {
                            assert(m.contains_key(k));
                        }
                    }
                }
                label
            },
        }
    }

    /// Creates the label at `pc`, failing with [`Error::LabelOutOfBounds`] if `pc`
    /// is not below the code length.
    pub fn create(&mut self, pc: u16) -> (r: Result<(), Error>)
        requires
            old(self).wf(),
        ensures
            final(self).wf(),
            final(self).code_length() == old(self).code_length(),
            pc < old(self).code_length() ==> r is Ok && final(self).map() == add_label(old(self).map(), pc),
            pc >= old(self).code_length() ==> r == Err::<(), Error>(Error::LabelOutOfBounds) && final(self).map() == old(self).map(),
    {
        if pc >= self.code_length {
            return Err(Error::LabelOutOfBounds);
        }
        self.get_or_add_unchecked(pc);
        Ok(())
    }

    /// The label at `pc`, created if there is none; fails with
    /// [`Error::LabelOutOfBounds`] if `pc` is not below the code length.
    pub fn get_or_create(&mut self, pc: u16) -> (r: Result<Label, Error>)
        requires
            old(self).wf(),
        ensures
            final(self).wf(),
            final(self).code_length() == old(self).code_length(),
            pc < old(self).code_length() ==> r == Ok::<Label, Error>(final(self).map()[pc])
                && final(self).map() == add_label(old(self).map(), pc),
            pc >= old(self).code_length() ==> r == Err::<Label, Error>(Error::LabelOutOfBounds) && final(self).map() == old(self).map(),
    {
        if pc >= self.code_length {
            return Err(Error::LabelOutOfBounds);
        }
        Ok(self.get_or_add_unchecked(pc))
    }

    /// Like [`Labels::get_or_create`], but `pc` may also be the code length, the
    /// offset just after the last instruction.
    pub fn get_or_create_check_exclusive(&mut self, pc: u16) -> (r: Result<Label, Error>)
        requires
            old(self).wf(),
        ensures
            final(self).wf(),
            final(self).code_length() == old(self).code_length(),
            pc <= old(self).code_length() ==> r == Ok::<Label, Error>(final(self).map()[pc])
                && final(self).map() == add_label(old(self).map(), pc),
            pc > old(self).code_length() ==> r == Err::<Label, Error>(Error::LabelOutOfBounds) && final(self).map() == old(self).map(),
    {
        if pc > self.code_length {
            return Err(Error::LabelOutOfBounds);
        }
        Ok(self.get_or_add_unchecked(pc))
    }

    /// The labels of the range from `start_pc` (inclusive) to `start_pc + length`
    /// (exclusive, and allowed to be the code length).
    pub fn get_or_create_range(&mut self, start_pc: u16, length: u16) -> (r: Result<LabelRange, Error>)
        requires
            old(self).wf(),
            start_pc < old(self).code_length() ==> start_pc + length <= u16::MAX,
        ensures
            final(self).wf(),
            final(self).code_length() == old(self).code_length(),
            ({
                let end = start_pc + length;
                let m1 = add_label(old(self).map(), start_pc);
                if start_pc >= old(self).code_length() {
                    r == Err::<LabelRange, Error>(Error::LabelOutOfBounds) && final(self).map() == old(self).map()
                } else if end > old(self).code_length() {
                    r == Err::<LabelRange, Error>(Error::LabelOutOfBounds) && final(self).map() == m1
                } else {
                    &&& final(self).map() == add_label(m1, end as u16)
                    &&& r == Ok::<LabelRange, Error>(LabelRange {
                        start: final(self).map()[start_pc],
                        end: final(self).map()[end as u16],
                    })
                }
            }),
    {
        let start = self.get_or_create(start_pc)?;
        let ghost m1 = self.map();
        let end = self.get_or_create_check_exclusive(start_pc + length)?;
        proof {
            assert(m1.contains_key(start_pc));
            assert(self.map()[start_pc] == m1[start_pc]);
        }
        Ok(LabelRange { start, end })
    }

    /// The label at `pc`, failing with [`Error::MissingLabel`] if there is none.
    pub fn try_get(&self, pc: u16) -> (r: Result<Label, Error>)
        ensures
            self.map().contains_key(pc) ==> r == Ok::<Label, Error>(self.map()[pc]),
            !self.map().contains_key(pc) ==> r == Err::<Label, Error>(Error::MissingLabel),
    {
        match self.get(pc) {
            Some(label) => Ok(label),
            None => Err(Error::MissingLabel),
        }
    }

    /// The label at `pc`, if there is one.
    pub fn get(&self, pc: u16) -> (r: Option<Label>)
        ensures
            self.map().contains_key(pc) ==> r == Some(self.map()[pc]),
            !self.map().contains_key(pc) ==> r is None,
    {
        proof {
            broadcast use vstd::std_specs::hash::group_hash_axioms;
        }
        match self.labels.get(&pc) {
            Some(label) => Some(*label),
            None => None,
        }
    }
}

} // verus!
