//! The register: the outputs of the blocks that have run, by block and port.

use crate::types::{ExecutionType, ValueView};
use std::collections::HashMap;
use vstd::prelude::*;

verus! {

/// A value together with the block and the port that produced it.
#[derive(Debug, PartialEq, Eq)]
pub struct Register {
    pub block_id: u32,
    pub node_id: u32,
    pub value: ExecutionType,
}

/// The mathematical value of a `Register`.
pub struct RegisterView {
    pub block_id: u32,
    pub node_id: u32,
    pub value: ValueView,
}

impl View for Register {
    type V = RegisterView;

    open spec fn view(&self) -> RegisterView {
        RegisterView { block_id: self.block_id, node_id: self.node_id, value: self.value@ }
    }
}

/// The views of the entries in `entries`, in order.
pub open spec fn registers_view(entries: Seq<Register>) -> Seq<RegisterView> {
    Seq::new(entries.len(), |i: int| entries[i]@)
}

/// The register after `entries` were written into `map` one after the
/// other: a later entry for a port replaces an earlier one.
pub open spec fn write_all(
    map: Map<(u32, u32), ValueView>,
    entries: Seq<RegisterView>,
) -> Map<(u32, u32), ValueView>
    decreases entries.len(),
{
    if entries.len() == 0 {
        map
    } else {
        write_all(
            map.insert((entries[0].block_id, entries[0].node_id), entries[0].value),
            entries.skip(1),
        )
    }
}

pub proof fn lemma_write_all_step(
    map: Map<(u32, u32), ValueView>,
    entries: Seq<RegisterView>,
    done: int,
)
    requires
        0 <= done < entries.len(),
    ensures
        write_all(map, entries.take(done + 1)) == write_all(map, entries.take(done)).insert(
            (entries[done].block_id, entries[done].node_id),
            entries[done].value,
        ),
    decreases done,
{
    let more = entries.take(done + 1);
    if done == 0 {
        assert(more.skip(1) =~= Seq::<RegisterView>::empty());
        assert(entries.take(0) =~= Seq::<RegisterView>::empty());
        assert(write_all(map, entries.take(0)) == map);
        assert(write_all(map.insert((more[0].block_id, more[0].node_id), more[0].value), more.skip(1))
            == map.insert((more[0].block_id, more[0].node_id), more[0].value));
    } else {
        let first = map.insert((entries[0].block_id, entries[0].node_id), entries[0].value);
        let rest = entries.skip(1);
        lemma_write_all_step(first, rest, done - 1);
        assert(rest.take(done) =~= more.skip(1));
        assert(rest.take(done - 1) =~= entries.take(done).skip(1));
        assert(rest[done - 1] == entries[done]);
        assert(more[0] == entries[0]);
        assert(entries.take(done)[0] == entries[0]);
    }
}

/// The entries of `entries`, each filed under the block `block_id`.
pub open spec fn file_under(block_id: u32, entries: Seq<RegisterView>) -> Seq<RegisterView> {
    Seq::new(
        entries.len(),
        |i: int| RegisterView { block_id: block_id, node_id: entries[i].node_id, value: entries[i].value },
    )
}

/// The slot of a block's port in the register.
pub open spec fn slot(block_id: u32, node_id: u32) -> u64 {
    (block_id as int * 0x1_0000_0000 + node_id as int) as u64
}

/// The cached outputs of one run.
pub struct RegisterFile {
    slots: HashMap<u64, ExecutionType>,
}

impl RegisterFile {
    /// The values held, by producing block and port.
    pub closed spec fn view(&self) -> Map<(u32, u32), ValueView> {
        Map::new(
            |k: (u32, u32)| self.slots@.contains_key(slot(k.0, k.1)),
            |k: (u32, u32)| self.slots@[slot(k.0, k.1)]@,
        )
    }

    fn slot_of(block_id: u32, node_id: u32) -> (r: u64)
        ensures
            r == slot(block_id, node_id),
    {
        block_id as u64 * 0x1_0000_0000 + node_id as u64
    }

    /// An empty register.
    pub fn new() -> (r: RegisterFile)
        ensures
            r@ == Map::<(u32, u32), ValueView>::empty(),
    {
        let r = RegisterFile { slots: HashMap::new() };
        assert(r@ =~= Map::<(u32, u32), ValueView>::empty());
        r
    }

    /// Forgets every value.
    pub fn clear(&mut self)
        ensures
            final(self)@ == Map::<(u32, u32), ValueView>::empty(),
    {
        self.slots.clear();
        assert(self@ =~= Map::<(u32, u32), ValueView>::empty());
    }

    /// Writes a value for a port, in place of the one held for it, if any.
    pub fn insert(&mut self, block_id: u32, node_id: u32, value: ExecutionType)
        ensures
            final(self)@ == old(self)@.insert((block_id, node_id), value@),
    {
        let key = Self::slot_of(block_id, node_id);
        self.slots.insert(key, value);
        assert(self@ =~= old(self)@.insert((block_id, node_id), value@)) by {
            assert forall|k: (u32, u32)| slot(k.0, k.1) == key implies k == (block_id, node_id) by {
            }
        }
    }

    /// A copy of the value held for a port.
    pub fn get(&self, block_id: u32, node_id: u32) -> (r: Option<ExecutionType>)
        ensures
            match r {
                Some(value) => self@.contains_key((block_id, node_id)) && self@[(
                    block_id,
                    node_id,
                )] == value@,
                None => !self@.contains_key((block_id, node_id)),
            },
    {
        let key = Self::slot_of(block_id, node_id);
        match self.slots.get(&key) {
            Some(value) => Some(value.duplicate()),
            None => None,
        }
    }

    /// Writes the outputs of the block `block_id` one after the other, each
    /// under the port that it names.
    pub fn insert_all(&mut self, block_id: u32, entries: Vec<Register>)
        ensures
            final(self)@ == write_all(old(self)@, file_under(block_id, registers_view(entries@))),
    {
        let ghost all = file_under(block_id, registers_view(entries@));
        let mut entries = entries;
        let ghost total = entries@.len();
        let mut rest: Vec<Register> = Vec::new();
        // The entries are moved out one by one, which a vector allows at its end only:
        // they are first turned round.
        while entries.len() > 0
            invariant
                rest@.len() + entries@.len() == total,
                total == all.len(),
                forall|j: int|
                    0 <= j < entries@.len() ==> entries@[j].node_id == all[j].node_id
                        && entries@[j].value@ == all[j].value,
                forall|j: int|
                    0 <= j < rest@.len() ==> rest@[j].node_id == all[total - 1 - j].node_id
                        && rest@[j].value@ == all[total - 1 - j].value,
                forall|j: int| 0 <= j < total ==> all[j].block_id == block_id,
            decreases entries@.len(),
        {
            let last = entries.pop().unwrap();
            rest.push(last);
        }
        let ghost mut done: int = 0;
        while rest.len() > 0
            invariant
                0 <= done,
                done + rest@.len() == total,
                total == all.len(),
                forall|j: int|
                    0 <= j < rest@.len() ==> rest@[j].node_id == all[total - 1 - j].node_id
                        && rest@[j].value@ == all[total - 1 - j].value,
                forall|j: int| 0 <= j < total ==> all[j].block_id == block_id,
                self@ == write_all(old(self)@, all.take(done)),
            decreases rest@.len(),
        {
            let entry = rest.pop().unwrap();
            proof {
                lemma_write_all_step(old(self)@, all, done);
            }
            self.insert(block_id, entry.node_id, entry.value);
            proof {
                done = done + 1;
            }
        }
        assert(all.take(total as int) =~= all);
    }
}

} // verus!
