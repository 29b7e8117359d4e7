//! A batch: the operations of one wire exchange, and what the worker expects
//! the store to answer to each.

use crate::codec::{
    encode_frame, frame_of, idle_record, lemma_frame_round_trip, outcomes_of, records_of, Record,
};
use crate::operation::Operation;
use vstd::prelude::*;

verus! {

/// A batch as values.
pub struct BatchModel {
    /// The operations, in the order they were queued.
    pub records: Seq<Record>,
    /// For each operation, whether the store must report success.
    pub expected: Seq<bool>,
    /// The number of slots of the frame, `ops_st`.
    pub capacity: nat,
}

impl BatchModel {
    /// A batch expects one outcome per operation and fits its frame.
    pub open spec fn valid(self) -> bool {
        &&& self.records.len() == self.expected.len()
        &&& self.records.len() <= self.capacity
        &&& 9 * self.capacity <= usize::MAX
    }

    /// The outcome in `slot` of a response answers an operation of the batch.
    pub open spec fn judges(self, slot: int) -> bool {
        0 <= slot < self.expected.len()
    }

    /// The outcomes of a response that answer operations of the batch: as
    /// many of the first as the batch has operations.
    pub open spec fn judged(self, outcomes: Seq<bool>) -> Seq<bool> {
        if outcomes.len() <= self.expected.len() {
            outcomes
        } else {
            outcomes.take(self.expected.len() as int)
        }
    }

    /// The store's answer in `slot` is missing or is not the expected one.
    /// Outcomes behind the last operation belong to idle slots and are not
    /// looked at.
    pub open spec fn disagrees_at(self, outcomes: Seq<bool>, slot: int) -> bool {
        slot >= outcomes.len() || outcomes[slot] != self.expected[slot]
    }
}

/// The batch of a frame that closes a phase: no operation, no expectation.
pub open spec fn closing_batch(ops_st: nat) -> BatchModel {
    BatchModel { records: Seq::empty(), expected: Seq::empty(), capacity: ops_st }
}

/// The frame that closes a phase carries no operation, however often it is
/// sent: it is all zeros, every slot reads back as idle, and no status byte
/// that comes back for it is held against an expectation or taken for the
/// outcome of an operation.
pub proof fn lemma_close_frame_carries_nothing(ops_st: nat, response: Seq<u8>)
    ensures
        frame_of(ops_st, closing_batch(ops_st).records) == Seq::new(9 * ops_st, |at: int| 0u8),
        records_of(frame_of(ops_st, closing_batch(ops_st).records)) == Seq::new(
            ops_st,
            |slot: int| idle_record(),
        ),
        Operation::of_opcode(idle_record().opcode) is None,
        closing_batch(ops_st).judged(outcomes_of(response)) == Seq::<bool>::empty(),
        forall|slot: int| !closing_batch(ops_st).judges(slot),
{
    lemma_frame_round_trip(ops_st, Seq::<Record>::empty());
}

/// The operations queued for one wire exchange, with their expected outcomes.
/// The outcomes stay with the client.
#[derive(Debug)]
pub struct Batch {
    records: Vec<Record>,
    expected: Vec<bool>,
    capacity: usize,
}

impl View for Batch {
    type V = BatchModel;

    closed spec fn view(&self) -> BatchModel {
        BatchModel {
            records: self.records@,
            expected: self.expected@,
            capacity: self.capacity as nat,
        }
    }
}

impl Batch {
    #[verifier::type_invariant]
    spec fn well_formed(self) -> bool {
        self@.valid()
    }

    /// Puts a batch together. `None` unless there is one expected outcome per
    /// record, the records fit `capacity` slots, and a frame of `capacity`
    /// slots fits the machine word.
    pub fn new(records: Vec<Record>, expected: Vec<bool>, capacity: usize) -> (made: Option<Batch>)
        ensures
            made is Some <==> (BatchModel {
                records: records@,
                expected: expected@,
                capacity: capacity as nat,
            }).valid(),
            made matches Some(batch) ==> batch@ == (BatchModel {
                records: records@,
                expected: expected@,
                capacity: capacity as nat,
            }),
    {
        if records.len() != expected.len() || records.len() > capacity || capacity > usize::MAX
            / 9 {
            None
        } else {
            Some(Batch { records, expected, capacity })
        }
    }

    /// The number of operations in the batch.
    pub fn len(&self) -> (count: usize)
        ensures
            self@.valid(),
            count == self@.records.len(),
    {
        proof {
            use_type_invariant(self);
        }
        self.records.len()
    }

    /// The number of slots of the batch's frame.
    pub fn capacity(&self) -> (slots: usize)
        ensures
            slots == self@.capacity,
    {
        self.capacity
    }

    /// The operations, in order.
    pub fn records(&self) -> (records: &Vec<Record>)
        ensures
            records@ == self@.records,
    {
        &self.records
    }

    /// The expected outcomes, one per operation.
    pub fn expected(&self) -> (expected: &Vec<bool>)
        ensures
            expected@ == self@.expected,
    {
        &self.expected
    }

    /// The request frame of the batch: its records, then idle slots up to the
    /// capacity.
    pub fn frame(&self) -> (frame: Vec<u8>)
        ensures
            self@.valid(),
            frame@ == frame_of(self@.capacity, self@.records),
            frame@.len() == 9 * self@.capacity,
    {
        proof {
            use_type_invariant(self);
        }
        let encoded = encode_frame(self.capacity, &self.records);
        encoded.unwrap()
    }

    /// Holds the store's answers against the batch: returns the first
    /// operation whose outcome is missing or is not the expected one, `None`
    /// if every operation was answered as expected.
    pub fn mismatch(&self, outcomes: &Vec<bool>) -> (found: Option<usize>)
        ensures
            self@.valid(),
            found is None <==> forall|slot: int|
                self@.judges(slot) ==> !self@.disagrees_at(outcomes@, slot),
            found matches Some(at) ==> {
                &&& self@.judges(at as int)
                &&& self@.disagrees_at(outcomes@, at as int)
                &&& forall|slot: int| 0 <= slot < at ==> !self@.disagrees_at(outcomes@, slot)
            },
    {
        proof {
            use_type_invariant(self);
        }
        let mut slot: usize = 0;
        while slot < self.expected.len()
            invariant
                self@.valid(),
                slot <= self.expected.len(),
                forall|earlier: int|
                    0 <= earlier < slot ==> !self@.disagrees_at(outcomes@, earlier),
            decreases self.expected.len() - slot,
        {
            if slot >= outcomes.len() || outcomes[slot] != self.expected[slot] {
                assert(self@.judges(slot as int) && self@.disagrees_at(outcomes@, slot as int));
                return Some(slot);
            }
            slot = slot + 1;
        }
        None
    }
}

/// Tells whether every outcome is a success, the outcomes of idle slots
/// included: what a prefill exchange must come back with.
pub fn all_succeeded(outcomes: &Vec<bool>) -> (yes: bool)
    ensures
        yes <==> forall|slot: int| 0 <= slot < outcomes@.len() ==> outcomes@[slot],
{
    let mut slot: usize = 0;
    while slot < outcomes.len()
        invariant
            slot <= outcomes.len(),
            forall|earlier: int| 0 <= earlier < slot ==> outcomes@[earlier],
        decreases outcomes.len() - slot,
    {
        if !outcomes[slot] {
            return false;
        }
        slot = slot + 1;
    }
    true
}

} // verus!
