//! The worker of the timed phase: it walks the workload mix, asks the oracle
//! what each slot sends, and cuts what is sent into batches.
//!
//! The worker does no I/O. Whoever drives it sends each batch it hands out,
//! holds the answer against the batch, and asks for the next; when there is
//! none left, the phase is closed.

use crate::batch::{Batch, BatchModel};
use crate::codec::{close_frame, frame_of, Record};
use crate::error::ConfigError;
use crate::mix::{tag_of_slot, OperationMix};
use crate::operation::Operation;
use crate::oracle::{
    lemma_run_in_two_parts, KeySequenceState, Probe, ProbeModel, SequenceModel,
};
use crate::power::is_power_of_two;
use crate::workload::MIX_SLOTS;
use vstd::arithmetic::power2::is_pow2;
use vstd::prelude::*;

verus! {

/// The tags of the slots `from .. to` of a run over `mix`, `to` not included.
pub open spec fn slot_tags(mix: Seq<Operation>, from: nat, to: nat) -> Seq<Operation> {
    Seq::new((to - from) as nat, |at: int| tag_of_slot(mix, (from + at) as nat))
}

/// One if the slot inserts, else zero.
pub open spec fn inserts_at(mix: Seq<Operation>, slot: nat) -> nat {
    if tag_of_slot(mix, slot) == Operation::Insert {
        1
    } else {
        0
    }
}

/// How many of the slots `from .. to` of a run over `mix` insert a key.
pub open spec fn insert_slots(mix: Seq<Operation>, from: nat, to: nat) -> nat
    decreases to - from,
{
    if from >= to {
        0
    } else {
        inserts_at(mix, from) + insert_slots(mix, from + 1, to)
    }
}

/// The record that carries a probe: its opcode, and the key at its index.
pub open spec fn record_of(keys: Seq<u64>, probe: ProbeModel) -> Record {
    Record { opcode: probe.opcode, key: keys[probe.index as int] }
}

/// The records that carry `probes`.
pub open spec fn records_for(keys: Seq<u64>, probes: Seq<ProbeModel>) -> Seq<Record> {
    Seq::new(probes.len(), |at: int| record_of(keys, probes[at]))
}

/// The outcomes that `probes` expect.
pub open spec fn expectations(probes: Seq<ProbeModel>) -> Seq<bool> {
    Seq::new(probes.len(), |at: int| probes[at].expected)
}

/// A worker as values.
pub struct WorkerModel {
    /// The worker's keys.
    pub keys: Seq<u64>,
    /// The state of its oracle.
    pub state: SequenceModel,
    /// The workload mix.
    pub mix: Seq<Operation>,
    /// The number of slots the worker has to take.
    pub ops: nat,
    /// The number of operations of a full batch.
    pub ops_st: nat,
    /// The number of slots taken so far.
    pub slot: nat,
}

impl WorkerModel {
    /// The invariant of a worker. Its last line says that the keys suffice for
    /// the insertions still to come.
    pub open spec fn valid(self) -> bool {
        &&& self.state.valid()
        &&& self.keys.len() == self.state.nkeys
        &&& self.mix.len() == 100
        &&& self.slot <= self.ops
        &&& 1 <= self.ops_st
        &&& 9 * self.ops_st <= usize::MAX
        &&& self.state.insert_seq + insert_slots(self.mix, self.slot, self.ops)
            <= self.state.nkeys
    }

    /// The tags of the slots from the next one up to slot `to`, which is not
    /// among them.
    pub open spec fn window(self, to: nat) -> Seq<Operation> {
        slot_tags(self.mix, self.slot, to)
    }

    /// What the slots from the next one up to slot `to` send.
    pub open spec fn probes_until(self, to: nat) -> Seq<ProbeModel> {
        self.state.probes(self.window(to))
    }

    /// The worker after it has taken the slots up to slot `to`.
    pub open spec fn after(self, to: nat) -> WorkerModel {
        WorkerModel { state: self.state.advance_all(self.window(to)), slot: to, ..self }
    }

    /// The next batch takes the slots up to slot `to`: `to` is the first slot
    /// before which the batch is full or the worker's slots are used up.
    pub open spec fn batch_ends_at(self, to: nat) -> bool {
        &&& self.slot <= to <= self.ops
        &&& self.probes_until(to).len() <= self.ops_st
        &&& to < self.ops ==> self.probes_until(to).len() == self.ops_st
        &&& to > self.slot ==> self.probes_until((to - 1) as nat).len() < self.ops_st
    }
}

/// Taking one slot more counts that slot's insertion.
pub proof fn lemma_insert_slots_grow(mix: Seq<Operation>, from: nat, to: nat)
    requires
        from <= to,
    ensures
        insert_slots(mix, from, to + 1) == insert_slots(mix, from, to) + inserts_at(mix, to),
        insert_slots(mix, from, to) <= to - from,
    decreases to - from,
{
    if from < to {
        lemma_insert_slots_grow(mix, from + 1, to);
    } else {
        assert(insert_slots(mix, from + 1, to + 1) == 0);
    }
}

/// The insertions of a range are those of its two parts.
pub proof fn lemma_insert_slots_split(mix: Seq<Operation>, from: nat, mid: nat, to: nat)
    requires
        from <= mid <= to,
    ensures
        insert_slots(mix, from, to) == insert_slots(mix, from, mid) + insert_slots(mix, mid, to),
    decreases mid - from,
{
    if from < mid {
        lemma_insert_slots_split(mix, from + 1, mid, to);
    }
}

/// The mix repeats after 100 slots, and so do its insertions.
pub proof fn lemma_insert_slots_repeat(mix: Seq<Operation>, from: nat, to: nat)
    ensures
        insert_slots(mix, from + 100, to + 100) == insert_slots(mix, from, to),
    decreases to - from,
{
    if from < to {
        lemma_insert_slots_repeat(mix, from + 1, to);
    }
}

/// The insertions of `cycles` whole turns of the mix and `rest` slots more.
pub proof fn lemma_insert_slots_cycles(mix: Seq<Operation>, cycles: nat, rest: nat)
    ensures
        insert_slots(mix, 0, 100 * cycles + rest) == cycles * insert_slots(mix, 0, 100)
            + insert_slots(mix, 0, rest),
    decreases cycles,
{
    if cycles > 0 {
        let shorter = (100 * (cycles - 1) + rest) as nat;
        lemma_insert_slots_split(mix, 0, 100, 100 * cycles + rest);
        lemma_insert_slots_repeat(mix, 0, shorter);
        lemma_insert_slots_cycles(mix, (cycles - 1) as nat, rest);
        assert(cycles * insert_slots(mix, 0, 100) == (cycles - 1) * insert_slots(mix, 0, 100)
            + insert_slots(mix, 0, 100)) by (nonlinear_arith);
    } else {
        assert(cycles * insert_slots(mix, 0, 100) == 0) by (nonlinear_arith)
            requires
                cycles == 0,
        ;
    }
}

/// One slot more sends at most one operation more, behind those sent before.
pub proof fn lemma_probes_grow(worker: WorkerModel, to: nat)
    requires
        worker.slot <= to,
    ensures
        worker.probes_until(to).len() <= worker.probes_until(to + 1).len()
            <= worker.probes_until(to).len() + 1,
        worker.probes_until(to + 1).take(worker.probes_until(to).len() as int)
            == worker.probes_until(to),
{
    assert(worker.window(to + 1).drop_last() =~= worker.window(to));
}

/// A longer run of slots sends no less.
pub proof fn lemma_probes_monotone(worker: WorkerModel, nearer: nat, further: nat)
    requires
        worker.slot <= nearer <= further,
    ensures
        worker.probes_until(nearer).len() <= worker.probes_until(further).len(),
    decreases further - nearer,
{
    if nearer < further {
        lemma_probes_monotone(worker, nearer, (further - 1) as nat);
        lemma_probes_grow(worker, (further - 1) as nat);
    }
}

/// There is one slot at which the next batch ends, so the contract of
/// `next_batch` fixes the batch and the state behind it.
pub proof fn lemma_batch_end_unique(worker: WorkerModel, one: nat, other: nat)
    requires
        worker.batch_ends_at(one),
        worker.batch_ends_at(other),
    ensures
        one == other,
{
    if one < other {
        lemma_probes_monotone(worker, one, (other - 1) as nat);
    }
    if other < one {
        lemma_probes_monotone(worker, other, (one - 1) as nat);
    }
}

/// Batches follow one another without gap or overlap: what the slots up to
/// `further` send is what the slots up to `nearer` send, followed by what the
/// worker sends from there on. So the batches of a worker, put end to end,
/// are the operations of its run in mix order.
pub proof fn lemma_batches_chain(worker: WorkerModel, nearer: nat, further: nat)
    requires
        worker.slot <= nearer <= further,
    ensures
        worker.after(further) == worker.after(nearer).after(further),
        worker.probes_until(further) == worker.probes_until(nearer) + worker.after(
            nearer,
        ).probes_until(further),
{
    let first = worker.window(nearer);
    let second = worker.after(nearer).window(further);
    assert(worker.window(further) =~= first + second);
    lemma_run_in_two_parts(worker.state, first, second);
}

/// The keys of a worker suffice for its run whenever they suffice for its
/// prefilled keys and one insertion per slot. A plan that is sound provides
/// that many.
pub proof fn lemma_one_key_per_slot_suffices(
    mix: Seq<Operation>,
    prefilled: nat,
    ops: nat,
    nkeys: nat,
)
    requires
        prefilled + ops <= nkeys,
    ensures
        prefilled + insert_slots(mix, 0, ops) <= nkeys,
{
    lemma_insert_slots_grow(mix, 0, ops);
}

/// Counts the slots among the first `ops` of a run over `mix` that insert.
pub fn count_insert_slots(mix: &OperationMix, ops: usize) -> (count: usize)
    ensures
        mix@.len() == 100,
        count == insert_slots(mix@, 0, ops as nat),
        count <= ops,
{
    let cycles: usize = ops / MIX_SLOTS;
    let rest: usize = ops % MIX_SLOTS;
    let mut in_rest: usize = 0;
    let mut in_cycle: usize = 0;
    let mut slot: usize = 0;
    while slot < MIX_SLOTS
        invariant
            slot <= 100,
            rest < 100,
            slot > 0 ==> mix@.len() == 100,
            in_cycle == insert_slots(mix@, 0, slot as nat),
            in_cycle <= slot,
            slot > rest ==> in_rest == insert_slots(mix@, 0, rest as nat),
            in_rest <= rest,
        decreases 100 - slot,
    {
        proof {
            lemma_insert_slots_grow(mix@, 0, slot as nat);
        }
        if slot == rest {
            in_rest = in_cycle;
        }
        let tag = mix.tag_at(slot);
        if tag == Operation::Insert {
            in_cycle = in_cycle + 1;
        }
        slot = slot + 1;
    }
    proof {
        lemma_insert_slots_cycles(mix@, cycles as nat, rest as nat);
        assert(cycles * in_cycle <= cycles * 100) by (nonlinear_arith)
            requires
                in_cycle <= 100,
        ;
    }
    cycles * in_cycle + in_rest
}

/// The worker of the timed phase.
#[derive(Debug)]
pub struct MixWorker {
    keys: Vec<u64>,
    oracle: KeySequenceState,
    mix: OperationMix,
    ops: usize,
    ops_st: usize,
    slot: usize,
}

impl View for MixWorker {
    type V = WorkerModel;

    closed spec fn view(&self) -> WorkerModel {
        WorkerModel {
            keys: self.keys@,
            state: self.oracle@,
            mix: self.mix@,
            ops: self.ops as nat,
            ops_st: self.ops_st as nat,
            slot: self.slot as nat,
        }
    }
}

impl MixWorker {
    #[verifier::type_invariant]
    spec fn well_formed(self) -> bool {
        self@.valid()
    }

    /// Sets a worker up for the timed phase: it holds `keys`, finds the first
    /// `prefilled` of them in the store, takes `ops` slots of `mix` and sends
    /// them in batches of `ops_st`.
    ///
    /// Fails if a batch would hold nothing or its frame would not fit the
    /// machine word, if the number of keys is not a power of two greater than
    /// 4, or if the keys do not suffice for the prefilled keys and the
    /// insertions of the run.
    pub fn new(keys: Vec<u64>, prefilled: usize, mix: OperationMix, ops: usize, ops_st: usize) -> (made:
        Result<MixWorker, ConfigError>)
        ensures
            made is Ok <==> {
                &&& ops_st >= 1
                &&& 9 * ops_st <= usize::MAX
                &&& is_pow2(keys@.len() as int)
                &&& keys@.len() > 4
                &&& prefilled + insert_slots(mix@, 0, ops as nat) <= keys@.len()
            },
            made matches Ok(worker) ==> {
                &&& worker@.valid()
                &&& worker@ == (WorkerModel {
                    keys: keys@,
                    state: SequenceModel::initial(keys@.len(), prefilled as nat),
                    mix: mix@,
                    ops: ops as nat,
                    ops_st: ops_st as nat,
                    slot: 0,
                })
            },
            made matches Err(e) ==> e == (if ops_st == 0 {
                ConfigError::EmptyBatch
            } else if 9 * ops_st > usize::MAX {
                ConfigError::TooLarge
            } else if !(is_pow2(keys@.len() as int) && keys@.len() > 4) {
                ConfigError::KeyCount
            } else {
                ConfigError::KeysExhausted
            }),
    {
        if ops_st == 0 {
            return Err(ConfigError::EmptyBatch);
        }
        if ops_st > usize::MAX / 9 {
            return Err(ConfigError::TooLarge);
        }
        let nkeys: usize = keys.len();
        if !(is_power_of_two(nkeys) && nkeys > 4) {
            return Err(ConfigError::KeyCount);
        }
        let inserts: usize = count_insert_slots(&mix, ops);
        if prefilled > nkeys || inserts > nkeys - prefilled {
            return Err(ConfigError::KeysExhausted);
        }
        let made = KeySequenceState::new(nkeys, prefilled);
        let oracle = made.unwrap();
        Ok(MixWorker { keys, oracle, mix, ops, ops_st, slot: 0 })
    }

    /// The number of slots taken so far.
    pub fn slot(&self) -> (slot: usize)
        ensures
            self@.valid(),
            slot == self@.slot,
    {
        proof {
            use_type_invariant(self);
        }
        self.slot
    }

    /// The number of slots the worker has to take.
    pub fn ops(&self) -> (ops: usize)
        ensures
            ops == self@.ops,
    {
        self.ops
    }

    /// The number of operations of a full batch.
    pub fn ops_st(&self) -> (ops_st: usize)
        ensures
            ops_st == self@.ops_st,
    {
        self.ops_st
    }

    /// Whether every slot has been taken.
    pub fn finished(&self) -> (done: bool)
        ensures
            done <==> self@.slot == self@.ops,
    {
        proof {
            use_type_invariant(self);
        }
        self.slot >= self.ops
    }

    /// The oracle, as it stands.
    pub fn oracle(&self) -> (oracle: &KeySequenceState)
        ensures
            oracle@ == self@.state,
    {
        &self.oracle
    }

    /// The worker's keys.
    pub fn keys(&self) -> (keys: &Vec<u64>)
        ensures
            keys@ == self@.keys,
    {
        &self.keys
    }

    /// The frame that closes the phase on the worker's connection, to be sent
    /// once when no batch is left.
    pub fn closing_frame(&self) -> (frame: Vec<u8>)
        ensures
            frame@ == frame_of(self@.ops_st, Seq::<Record>::empty()),
            frame@ == Seq::new(9 * self@.ops_st, |at: int| 0u8),
    {
        proof {
            use_type_invariant(self);
        }
        close_frame(self.ops_st).unwrap()
    }

    /// Gives the keys back when the worker is done with them.
    pub fn into_keys(self) -> (keys: Vec<u64>)
        ensures
            keys@ == self@.keys,
    {
        self.keys
    }

    /// Takes slots, in mix order, until the operations they send fill a batch
    /// or the worker's slots are used up, and hands out the batch. Returns
    /// `None` when the slots taken sent nothing; no slot is left then.
    pub fn next_batch(&mut self) -> (sent: Option<Batch>)
        ensures
            final(self)@.valid(),
            old(self)@.batch_ends_at(final(self)@.slot),
            final(self)@ == old(self)@.after(final(self)@.slot),
            sent is None <==> old(self)@.probes_until(final(self)@.slot).len() == 0,
            sent is None ==> final(self)@.slot == final(self)@.ops,
            sent matches Some(batch) ==> batch@ == (BatchModel {
                records: records_for(
                    old(self)@.keys,
                    old(self)@.probes_until(final(self)@.slot),
                ),
                expected: expectations(old(self)@.probes_until(final(self)@.slot)),
                capacity: old(self)@.ops_st,
            }),
    {
        proof {
            use_type_invariant(&*self);
        }
        let ghost start = self@;
        let mut records: Vec<Record> = Vec::new();
        let mut expected: Vec<bool> = Vec::new();
        while self.slot < self.ops && records.len() < self.ops_st
            invariant
                start.valid(),
                self@.valid(),
                self@ == start.after(self@.slot),
                start.slot <= self@.slot <= start.ops,
                records@ == records_for(start.keys, start.probes_until(self@.slot)),
                expected@ == expectations(start.probes_until(self@.slot)),
                records@.len() <= start.ops_st,
                self@.slot > start.slot ==> start.probes_until((self@.slot - 1) as nat).len()
                    < start.ops_st,
            decreases self.ops - self.slot,
        {
            let tag: Operation = self.mix.tag_at(self.slot);
            proof {
                assert(start.window(self@.slot + 1).drop_last() =~= start.window(self@.slot));
            }
            self.slot = self.slot + 1;
            // The invariant keeps a key for every insertion still to come,
            // so the oracle is not exhausted when the slot inserts.
            let mut oracle: KeySequenceState = self.oracle;
            let taken = oracle.step(tag);
            self.oracle = oracle;
            let probe: Option<Probe> = taken.unwrap();
            match probe {
                Some(p) => {
                    records.push(Record { opcode: p.opcode, key: self.keys[p.index] });
                    expected.push(p.expected);
                },
                None => {},
            }
        }
        if records.len() == 0 {
            None
        } else {
            Batch::new(records, expected, self.ops_st)
        }
    }
}

} // verus!
