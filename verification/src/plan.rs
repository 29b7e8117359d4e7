//! The sizes of a run, derived once from its options before anything is
//! connected: how large the table is, how many keys each worker holds, and
//! how many operations each worker issues in each phase.

use crate::error::ConfigError;
use crate::mix::OperationMix;
use crate::operation::Operation;
use crate::oracle::SequenceModel;
use crate::power::{is_next_pow2, next_power_of_two, power_of_two};
use crate::prefill::{PrefillModel, Prefiller};
use crate::worker::{insert_slots, lemma_one_key_per_slot_suffices, MixWorker, WorkerModel};
use crate::workload::{WorkloadKind, WorkloadModel, WorkloadSpec};
use vstd::arithmetic::div_mod::{
    lemma_div_is_ordered, lemma_div_multiples_vanish, lemma_fundamental_div_mod,
    lemma_fundamental_div_mod_converse_div, lemma_mod_bound,
};
use vstd::arithmetic::mul::lemma_mul_is_distributive_add;
use vstd::arithmetic::power2::{is_pow2, pow2};
use vstd::prelude::*;

verus! {

/// The options of a run.
#[derive(Clone, Copy, Debug)]
pub struct Opt {
    /// The experiment, which fixes the workload.
    pub experiment: WorkloadKind,
    /// The server-side strategy under test; passed on, never read.
    pub delegation_no: u8,
    /// The binary logarithm of the table's capacity.
    pub capacity: u8,
    /// The number of workers.
    pub threads: usize,
    /// The number of operations of a full batch.
    pub ops_st: usize,
}

impl Default for Opt {
    /// The options of a run that was given none.
    fn default() -> (opt: Opt)
        ensures
            opt.experiment == WorkloadKind::ReadHeavy,
            opt.delegation_no == 1,
            opt.capacity == 15,
            opt.threads == 1,
            opt.ops_st == 1,
    {
        Opt {
            experiment: WorkloadKind::ReadHeavy,
            delegation_no: 1,
            capacity: 15,
            threads: 1,
            ops_st: 1,
        }
    }
}

impl Opt {
    /// The workload of the experiment that the options name.
    pub fn workload(&self) -> (workload: WorkloadSpec)
        ensures
            workload@ == self.experiment.model(),
            workload@.valid(),
            workload.spec_prefill().spec_numerator() == self.experiment.prefill_fifths(),
            workload.spec_prefill().spec_denominator() == 5,
    {
        self.experiment.workload()
    }
}

/// `a / b`, rounded up: `(a + b - 1) / b`.
pub open spec fn ceil_div(a: nat, b: nat) -> nat {
    if a % b == 0 {
        a / b
    } else {
        a / b + 1
    }
}

/// An upper bound on the insertions of a run of `total_ops` operations: the
/// mix is walked at most `total_ops / 100`, rounded up, times, and each walk
/// inserts as often as the mix holds insertions and upserts.
pub open spec fn insert_bound(total_ops: nat, workload: WorkloadModel) -> nat {
    (total_ops + 99) / 100 * (workload.insert + workload.upsert)
}

/// The number of keys a run needs over all workers: room for the table or
/// for the insertions, whichever is more, and for the prefill.
pub open spec fn insert_keys(capacity: nat, workload: WorkloadModel, prefill: nat) -> nat {
    (if capacity >= insert_bound(capacity, workload) {
        capacity
    } else {
        insert_bound(capacity, workload)
    }) + prefill
}

/// The number of keys a run needs over all workers, from its options.
pub open spec fn keys_needed(opt: Opt, workload: WorkloadSpec) -> nat {
    let capacity = pow2(opt.capacity as nat);
    insert_keys(capacity, workload@, workload.spec_prefill().target(capacity))
}

/// Why the options with this workload give no plan, if they give none.
pub open spec fn plan_error(opt: Opt, workload: WorkloadSpec) -> Option<ConfigError> {
    if opt.threads == 0 {
        Some(ConfigError::NoThreads)
    } else if opt.ops_st == 0 {
        Some(ConfigError::EmptyBatch)
    } else if 9 * opt.ops_st > usize::MAX || opt.capacity >= usize::BITS || keys_needed(
        opt,
        workload,
    ) > usize::MAX || ceil_div(keys_needed(opt, workload), opt.threads as nat) > usize::MAX / 2
        + 1 {
        Some(ConfigError::TooLarge)
    } else if ceil_div(keys_needed(opt, workload), opt.threads as nat) <= 4 {
        Some(ConfigError::KeyCount)
    } else {
        None
    }
}

/// The sizes of a run.
#[derive(Clone, Copy, Debug, PartialEq, Eq, Structural)]
pub struct BenchPlan {
    /// The server-side strategy under test.
    pub delegation_no: u8,
    /// The capacity of the table: two to the capacity option.
    pub capacity: usize,
    /// The number of workers.
    pub threads: usize,
    /// The number of operations of a full batch.
    pub ops_st: usize,
    /// The number of slots of the timed phase, over all workers.
    pub total_ops: usize,
    /// The number of keys to prefill, over all workers.
    pub prefill: usize,
    /// The number of keys each worker holds: a power of two.
    pub keys_per_thread: usize,
    /// The number of keys each worker prefills.
    pub prefill_per_thread: usize,
    /// The number of slots each worker takes in the timed phase.
    pub ops_per_thread: usize,
}

impl BenchPlan {
    /// The plan is the one that the options and the workload give.
    pub open spec fn planned(self, opt: Opt, workload: WorkloadSpec) -> bool {
        &&& self.delegation_no == opt.delegation_no
        &&& self.threads == opt.threads
        &&& self.ops_st == opt.ops_st
        &&& self.capacity == pow2(opt.capacity as nat)
        &&& self.total_ops == self.capacity
        &&& self.prefill == workload.spec_prefill().target(self.capacity as nat)
        &&& is_next_pow2(
            ceil_div(keys_needed(opt, workload), opt.threads as nat),
            self.keys_per_thread as nat,
        )
        &&& self.prefill_per_thread == self.prefill / self.threads
        &&& self.ops_per_thread == self.total_ops / self.threads
    }

    /// Every worker can be set up from the plan: batches hold something and
    /// their frames fit, the keys of a worker are a power of two greater than
    /// 4, and they suffice for its prefill and for its slots, even if every
    /// slot inserts.
    pub open spec fn sound(self) -> bool {
        &&& self.threads >= 1
        &&& self.ops_st >= 1
        &&& 9 * self.ops_st <= usize::MAX
        &&& is_pow2(self.keys_per_thread as int)
        &&& self.keys_per_thread > 4
        &&& self.prefill_per_thread + self.ops_per_thread <= self.keys_per_thread
    }

    /// Derives the sizes of a run from its options and its workload.
    ///
    /// Fails if there is no worker, if a batch would hold nothing, if a size
    /// does not fit the machine word, or if a worker would hold 4 keys or
    /// fewer.
    pub fn new(opt: &Opt, workload: &WorkloadSpec) -> (made: Result<BenchPlan, ConfigError>)
        ensures
            made is Ok <==> plan_error(*opt, *workload) is None,
            made matches Err(e) ==> plan_error(*opt, *workload) == Some(e),
            made matches Ok(plan) ==> plan.planned(*opt, *workload) && plan.sound(),
    {
        if opt.threads == 0 {
            return Err(ConfigError::NoThreads);
        }
        if opt.ops_st == 0 {
            return Err(ConfigError::EmptyBatch);
        }
        if opt.ops_st > usize::MAX / 9 {
            return Err(ConfigError::TooLarge);
        }
        let capacity: usize = match power_of_two(opt.capacity) {
            Some(capacity) => capacity,
            None => {
                return Err(ConfigError::TooLarge);
            },
        };
        let total_ops: usize = capacity;
        let prefill: usize = workload.prefill().prefill_target(capacity);
        let inserting: u128 = workload.share(Operation::Insert) as u128 + workload.share(
            Operation::Upsert,
        ) as u128;
        let walks: u128 = (total_ops as u128 + 99) / 100;
        assert(walks * inserting <= 0x1_0000_0000_0000_0000 * 200) by (nonlinear_arith)
            requires
                walks <= 0x1_0000_0000_0000_0000,
                inserting <= 200,
        ;
        let bound: u128 = walks * inserting;
        let most: u128 = if capacity as u128 >= bound {
            capacity as u128
        } else {
            bound
        };
        let keys: u128 = most + prefill as u128;
        if keys > usize::MAX as u128 {
            return Err(ConfigError::TooLarge);
        }
        let threads: u128 = opt.threads as u128;
        let share: u128 = if keys % threads == 0 {
            keys / threads
        } else {
            keys / threads + 1
        };
        if share > usize::MAX as u128 {
            return Err(ConfigError::TooLarge);
        }
        let keys_per_thread: usize = match next_power_of_two(share as usize) {
            Some(keys_per_thread) => keys_per_thread,
            None => {
                return Err(ConfigError::TooLarge);
            },
        };
        if keys_per_thread <= 4 {
            return Err(ConfigError::KeyCount);
        }
        proof {
            if share <= 4 {
                lemma_small_powers(keys_per_thread as nat);
            }
            lemma_shares_fit(capacity as nat, prefill as nat, keys as nat, opt.threads as nat);
        }
        Ok(
            BenchPlan {
                delegation_no: opt.delegation_no,
                capacity,
                threads: opt.threads,
                ops_st: opt.ops_st,
                total_ops,
                prefill,
                keys_per_thread,
                prefill_per_thread: prefill / opt.threads,
                ops_per_thread: total_ops / opt.threads,
            },
        )
    }
}

impl BenchPlan {
    /// Sets up the prefill of one worker that holds `keys`: it inserts the
    /// first `prefill_per_thread` of them.
    ///
    /// A sound plan and `keys_per_thread` keys always give a worker.
    pub fn prefiller(&self, keys: Vec<u64>) -> (made: Result<Prefiller, ConfigError>)
        ensures
            self.sound() && keys@.len() == self.keys_per_thread ==> made is Ok,
            made is Ok <==> self.ops_st >= 1 && 9 * self.ops_st <= usize::MAX
                && self.prefill_per_thread <= keys@.len(),
            made matches Ok(worker) ==> worker@.valid() && worker@ == (PrefillModel {
                keys: keys@,
                limit: self.prefill_per_thread as nat,
                ops_st: self.ops_st as nat,
                next: 0,
            }),
            made matches Err(e) ==> e == (if self.ops_st == 0 {
                ConfigError::EmptyBatch
            } else if 9 * self.ops_st > usize::MAX {
                ConfigError::TooLarge
            } else {
                ConfigError::KeysExhausted
            }),
    {
        Prefiller::new(keys, self.prefill_per_thread, self.ops_st)
    }

    /// Sets up the timed phase of one worker that holds `keys`: it finds the
    /// first `prefill_per_thread` of them in the store and takes
    /// `ops_per_thread` slots of `mix`.
    ///
    /// A sound plan and `keys_per_thread` keys always give a worker, whatever
    /// the mix.
    pub fn worker(&self, keys: Vec<u64>, mix: OperationMix) -> (made: Result<
        MixWorker,
        ConfigError,
    >)
        ensures
            self.sound() && keys@.len() == self.keys_per_thread ==> made is Ok,
            made is Ok <==> {
                &&& self.ops_st >= 1
                &&& 9 * self.ops_st <= usize::MAX
                &&& is_pow2(keys@.len() as int)
                &&& keys@.len() > 4
                &&& self.prefill_per_thread + insert_slots(mix@, 0, self.ops_per_thread as nat)
                    <= keys@.len()
            },
            made matches Ok(worker) ==> {
                &&& worker@.valid()
                &&& worker@ == (WorkerModel {
                    keys: keys@,
                    state: SequenceModel::initial(keys@.len(), self.prefill_per_thread as nat),
                    mix: mix@,
                    ops: self.ops_per_thread as nat,
                    ops_st: self.ops_st as nat,
                    slot: 0,
                })
            },
            made matches Err(e) ==> e == (if self.ops_st == 0 {
                ConfigError::EmptyBatch
            } else if 9 * self.ops_st > usize::MAX {
                ConfigError::TooLarge
            } else if !(is_pow2(keys@.len() as int) && keys@.len() > 4) {
                ConfigError::KeyCount
            } else {
                ConfigError::KeysExhausted
            }),
    {
        proof {
            if self.sound() && keys@.len() == self.keys_per_thread {
                lemma_one_key_per_slot_suffices(
                    mix@,
                    self.prefill_per_thread as nat,
                    self.ops_per_thread as nat,
                    keys@.len(),
                );
            }
        }
        MixWorker::new(keys, self.prefill_per_thread, mix, self.ops_per_thread, self.ops_st)
    }
}

/// Rounding a quotient up is dividing after adding the divisor less one.
pub proof fn lemma_ceil_div_adds_before_dividing(a: nat, b: nat)
    requires
        b > 0,
    ensures
        ceil_div(a, b) == (a + b - 1) / (b as int),
{
    let q = a as int / b as int;
    let r = a as int % b as int;
    lemma_fundamental_div_mod(a as int, b as int);
    lemma_mod_bound(a as int, b as int);
    assert(q * b == b * q) by (nonlinear_arith);
    if r == 0 {
        lemma_fundamental_div_mod_converse_div(a + b - 1, b as int, q, b - 1);
    } else {
        assert((q + 1) * b == q * b + b) by (nonlinear_arith);
        lemma_fundamental_div_mod_converse_div(a + b - 1, b as int, q + 1, r - 1);
    }
}

/// The powers of two below 8 are 1, 2 and 4.
proof fn lemma_small_powers(p: nat)
    requires
        is_pow2(p as int),
        p < 8,
    ensures
        p <= 4,
{
    reveal_with_fuel(is_pow2, 4);
}

/// The shares of the workers in two quantities fit into a share of their
/// sum, rounded up.
pub proof fn lemma_shares_fit(first: nat, second: nat, sum: nat, parts: nat)
    requires
        parts > 0,
        first + second <= sum,
    ensures
        first / parts + second / parts <= ceil_div(sum, parts),
{
    let t = parts as int;
    let qa = first as int / t;
    let qb = second as int / t;
    lemma_fundamental_div_mod(first as int, t);
    lemma_fundamental_div_mod(second as int, t);
    lemma_mod_bound(first as int, t);
    lemma_mod_bound(second as int, t);
    lemma_mul_is_distributive_add(t, qa, qb);
    lemma_div_is_ordered(t * (qa + qb), sum as int, t);
    lemma_div_multiples_vanish(qa + qb, t);
}

} // verus!
