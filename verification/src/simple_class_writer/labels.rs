//! Turning [`Label`]s into bytecode offsets while writing a `Code` attribute.
use vstd::prelude::*;
use std::collections::HashMap;
use crate::error::Error;
use crate::tree::code::{Label, LabelRange};

verus! {

/// A helper for writing [`Label`]s as bytecode offsets.
#[derive(Debug)]
pub struct Labels {
    /// From an instruction index (an index into the list of instructions) to its bytecode offset.
    index_to_offset: HashMap<usize, u16>,
    /// From the id of a [`Label`] to its bytecode offset.
    labels: HashMap<u16, u16>,
}

impl Labels {
    /// The bytecode offset of each instruction index known in this attempt.
    pub closed spec fn offsets(&self) -> Map<usize, u16> {
        self.index_to_offset@
    }

    /// The bytecode offset of each label id known in this attempt.
    pub closed spec fn targets(&self) -> Map<u16, u16> {
        self.labels@
    }

    /// Creates a helper that knows no offsets.
    pub fn new() -> (r: Labels)
        ensures
            r.offsets() == Map::<usize, u16>::empty(),
            r.targets() == Map::<u16, u16>::empty(),
    {
        Labels { index_to_offset: HashMap::new(), labels: HashMap::new() }
    }

    /// Records that the instruction at `instruction_index` starts at `opcode_pos`.
    pub fn add_instruction(&mut self, instruction_index: usize, opcode_pos: u16)
        ensures
            final(self).offsets() == old(self).offsets().insert(instruction_index, opcode_pos),
            final(self).targets() == old(self).targets(),
    {
        proof {
            broadcast use vstd::std_specs::hash::group_hash_axioms;
        }
        self.index_to_offset.insert(instruction_index, opcode_pos);
    }

    /// Records that `label` stands at `opcode_pos` in this writing attempt.
    pub fn add_opcode_pos_label(&mut self, label: Label, opcode_pos: u16)
        ensures
            final(self).targets() == old(self).targets().insert(label.id, opcode_pos),
            final(self).offsets() == old(self).offsets(),
    {
        proof {
            broadcast use vstd::std_specs::hash::group_hash_axioms;
        }
        self.labels.insert(label.id, opcode_pos);
    }

    /// The bytecode offset of `target`, if it is known.
    pub fn get(&self, target: &Label) -> (r: Option<u16>)
        ensures
            self.targets().contains_key(target.id) ==> r == Some(self.targets()[target.id]),
            !self.targets().contains_key(target.id) ==> r is None,
    {
        proof {
            broadcast use vstd::std_specs::hash::group_hash_axioms;
        }
        match self.labels.get(&target.id) {
            Some(pos) => Some(*pos),
            None => None,
        }
    }

    /// The bytecode offset of `target`, failing with [`Error::MissingLabel`] if it is not known.
    pub fn try_get(&self, target: &Label) -> (r: Result<u16, Error>)
        ensures
            self.targets().contains_key(target.id) ==> r == Ok::<u16, Error>(self.targets()[target.id]),
            !self.targets().contains_key(target.id) ==> r == Err::<u16, Error>(Error::MissingLabel),
    {
        match self.get(target) {
            Some(pos) => Ok(pos),
            None => Err(Error::MissingLabel),
        }
    }

    /// The start offset and the length of `range`.
    pub fn try_get_range(&self, range: &LabelRange) -> (r: Result<(u16, u16), Error>)
        requires
            self.targets().contains_key(range.start.id) && self.targets().contains_key(range.end.id)
                ==> self.targets()[range.start.id] <= self.targets()[range.end.id],
        ensures
            ({
                let t = self.targets();
                if !t.contains_key(range.start.id) || !t.contains_key(range.end.id) {
                    r == Err::<(u16, u16), Error>(Error::MissingLabel)
                } else {
                    r == Ok::<(u16, u16), Error>((t[range.start.id], (t[range.end.id] - t[range.start.id]) as u16))
                }
            }),
    {
        let start = self.try_get(&range.start)?;
        let end = self.try_get(&range.end)?;
        Ok((start, end - start))
    }

    /// Forgets all offsets, to start another writing attempt.
    pub fn next_attempt(&mut self)
        ensures
            final(self).offsets() == Map::<usize, u16>::empty(),
            final(self).targets() == Map::<u16, u16>::empty(),
    {
        self.index_to_offset = HashMap::new();
        self.labels = HashMap::new();
    }
}

} // verus!
