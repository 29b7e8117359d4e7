//! The worker of the prefill phase: it inserts the first keys of its shard,
//! a batch at a time, before the clock starts.

use crate::batch::{Batch, BatchModel};
use crate::codec::{close_frame, frame_of, Record};
use crate::error::ConfigError;
use crate::operation::OPCODE_INSERT;
use vstd::prelude::*;

verus! {

/// The records that insert the keys `from .. to`.
pub open spec fn insert_records(keys: Seq<u64>, from: nat, to: nat) -> Seq<Record> {
    Seq::new(
        (to - from) as nat,
        |at: int| Record { opcode: OPCODE_INSERT, key: keys[from + at] },
    )
}

/// `count` expected successes.
pub open spec fn all_expected(count: nat) -> Seq<bool> {
    Seq::new(count, |at: int| true)
}

/// A prefill worker as values.
pub struct PrefillModel {
    /// The worker's keys.
    pub keys: Seq<u64>,
    /// The number of keys to insert.
    pub limit: nat,
    /// The number of operations of a full batch.
    pub ops_st: nat,
    /// The number of keys handed out so far.
    pub next: nat,
}

impl PrefillModel {
    /// The invariant of a prefill worker.
    pub open spec fn valid(self) -> bool {
        &&& self.next <= self.limit <= self.keys.len()
        &&& 1 <= self.ops_st
        &&& 9 * self.ops_st <= usize::MAX
    }

    /// The key behind the last one of the next batch: a batch is full, or
    /// holds what is left.
    pub open spec fn batch_end(self) -> nat {
        if self.next + self.ops_st <= self.limit {
            self.next + self.ops_st
        } else {
            self.limit
        }
    }
}

/// The worker of the prefill phase.
#[derive(Debug)]
pub struct Prefiller {
    keys: Vec<u64>,
    limit: usize,
    ops_st: usize,
    next: usize,
}

impl View for Prefiller {
    type V = PrefillModel;

    closed spec fn view(&self) -> PrefillModel {
        PrefillModel {
            keys: self.keys@,
            limit: self.limit as nat,
            ops_st: self.ops_st as nat,
            next: self.next as nat,
        }
    }
}

impl Prefiller {
    #[verifier::type_invariant]
    spec fn well_formed(self) -> bool {
        self@.valid()
    }

    /// Sets a worker up to insert the first `limit` of `keys` in batches of
    /// `ops_st`.
    ///
    /// Fails if a batch would hold nothing or its frame would not fit the
    /// machine word, or if there are fewer than `limit` keys.
    pub fn new(keys: Vec<u64>, limit: usize, ops_st: usize) -> (made: Result<
        Prefiller,
        ConfigError,
    >)
        ensures
            made is Ok <==> ops_st >= 1 && 9 * ops_st <= usize::MAX && limit <= keys@.len(),
            made matches Ok(worker) ==> worker@.valid() && worker@ == (PrefillModel {
                keys: keys@,
                limit: limit as nat,
                ops_st: ops_st as nat,
                next: 0,
            }),
            made matches Err(e) ==> e == (if ops_st == 0 {
                ConfigError::EmptyBatch
            } else if 9 * ops_st > usize::MAX {
                ConfigError::TooLarge
            } else {
                ConfigError::KeysExhausted
            }),
    {
        if ops_st == 0 {
            return Err(ConfigError::EmptyBatch);
        }
        if ops_st > usize::MAX / 9 {
            return Err(ConfigError::TooLarge);
        }
        if limit > keys.len() {
            return Err(ConfigError::KeysExhausted);
        }
        Ok(Prefiller { keys, limit, ops_st, next: 0 })
    }

    /// The number of keys handed out so far.
    pub fn cursor(&self) -> (next: usize)
        ensures
            self@.valid(),
            next == self@.next,
    {
        proof {
            use_type_invariant(self);
        }
        self.next
    }

    /// Whether every key to insert has been handed out.
    pub fn finished(&self) -> (done: bool)
        ensures
            done <==> self@.next == self@.limit,
    {
        proof {
            use_type_invariant(self);
        }
        self.next >= self.limit
    }

    /// The frame that closes the phase on the worker's connection, to be sent
    /// once when no batch is left.
    pub fn closing_frame(&self) -> (frame: Vec<u8>)
        ensures
            frame@ == frame_of(self@.ops_st, Seq::<Record>::empty()),
            frame@ == Seq::new(9 * self@.ops_st, |at: int| 0u8),
    {
        proof {
            use_type_invariant(self);
        }
        close_frame(self.ops_st).unwrap()
    }

    /// Gives the keys back for the timed phase.
    pub fn into_keys(self) -> (keys: Vec<u64>)
        ensures
            keys@ == self@.keys,
    {
        self.keys
    }

    /// Hands out the next batch of insertions: the next `ops_st` keys, or
    /// those that are left. Every one of them must succeed. Returns `None`
    /// when no key is left.
    pub fn next_batch(&mut self) -> (sent: Option<Batch>)
        ensures
            final(self)@.valid(),
            final(self)@ == (PrefillModel { next: old(self)@.batch_end(), ..old(self)@ }),
            sent is None <==> old(self)@.next == old(self)@.limit,
            sent matches Some(batch) ==> batch@ == (BatchModel {
                records: insert_records(old(self)@.keys, old(self)@.next, old(self)@.batch_end()),
                expected: all_expected((old(self)@.batch_end() - old(self)@.next) as nat),
                capacity: old(self)@.ops_st,
            }),
    {
        proof {
            use_type_invariant(&*self);
        }
        if self.next >= self.limit {
            return None;
        }
        let left: usize = self.limit - self.next;
        let take: usize = if self.ops_st < left {
            self.ops_st
        } else {
            left
        };
        let first: usize = self.next;
        let mut records: Vec<Record> = Vec::with_capacity(take);
        let mut expected: Vec<bool> = Vec::with_capacity(take);
        let mut done: usize = 0;
        while done < take
            invariant
                done <= take,
                first + take <= self.limit <= self.keys@.len(),
                records@ == insert_records(self.keys@, first as nat, (first + done) as nat),
                expected@ == all_expected(done as nat),
            decreases take - done,
        {
            records.push(Record { opcode: OPCODE_INSERT, key: self.keys[first + done] });
            expected.push(true);
            done = done + 1;
        }
        self.next = first + take;
        Batch::new(records, expected, self.ops_st)
    }
}

} // verus!
