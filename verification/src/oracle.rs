//! The key sequence oracle: a per-worker state machine that decides, for each
//! slot of the workload mix, which key index to touch and what the store must
//! answer.
//!
//! Three cursors walk the worker's keys. `insert_seq` counts the keys inserted
//! so far, `erase_seq` the keys removed so far, so the keys with an index in
//! `[erase_seq, insert_seq)` are in the store. `find_seq` jumps over all
//! indices, driven by a linear congruential generator whose modulus is the
//! number of keys.

use crate::error::ConfigError;
use crate::operation::{Operation, OPCODE_INSERT, OPCODE_READ, OPCODE_REMOVE, OPCODE_UPDATE};
use crate::power::{is_power_of_two, lemma_pow2_exponent};
use vstd::arithmetic::div_mod::{
    lemma_add_mod_noop, lemma_mod_bound, lemma_mod_mod, lemma_mod_multiples_vanish,
    lemma_small_mod,
};
use vstd::arithmetic::power2::{is_pow2, lemma_pow2_adds, lemma_pow2_pos, pow2};
use vstd::bits::lemma_usize_low_bits_mask_is_mod;
use vstd::layout::unsigned_int_max_values;
use vstd::prelude::*;

verus! {

/// Multiplier of the generator for `nkeys` keys.
pub open spec fn lcg_multiplier(nkeys: nat) -> nat {
    nkeys / 2 + 1
}

/// Increment of the generator for `nkeys` keys.
pub open spec fn lcg_increment(nkeys: nat) -> nat {
    (nkeys / 4 - 1) as nat
}

/// One turn of the generator: `(a * x + c) mod nkeys`. For a power of two this
/// is `(a * x + c) & (nkeys - 1)`.
pub open spec fn lcg_next(nkeys: nat, x: nat) -> nat {
    (lcg_multiplier(nkeys) * x + lcg_increment(nkeys)) % nkeys
}

/// The value of `find_seq` after `turns` turns of the generator from 0.
pub open spec fn lcg_orbit(nkeys: nat, turns: nat) -> nat
    decreases turns,
{
    if turns == 0 {
        0
    } else {
        lcg_next(nkeys, lcg_orbit(nkeys, (turns - 1) as nat))
    }
}

/// What the oracle asks of the store in one slot: an operation on the key at
/// `index`, and whether the store must report the key as present.
pub struct ProbeModel {
    pub opcode: u8,
    pub index: nat,
    pub expected: bool,
}

/// The oracle's state as numbers.
pub struct SequenceModel {
    pub nkeys: nat,
    pub insert_seq: nat,
    pub erase_seq: nat,
    pub find_seq: nat,
}

impl SequenceModel {
    /// The state a worker starts its timed phase in.
    pub open spec fn initial(nkeys: nat, prefilled: nat) -> SequenceModel {
        SequenceModel { nkeys, insert_seq: prefilled, erase_seq: 0, find_seq: 0 }
    }

    /// The invariant of the oracle.
    pub open spec fn valid(self) -> bool {
        &&& is_pow2(self.nkeys as int)
        &&& self.nkeys > 4
        &&& self.erase_seq <= self.insert_seq <= self.nkeys
        &&& self.find_seq < self.nkeys
    }

    /// No key is left to insert.
    pub open spec fn exhausted(self) -> bool {
        self.insert_seq >= self.nkeys
    }

    /// The state after one turn of the generator.
    pub open spec fn twisted(self) -> SequenceModel {
        SequenceModel { find_seq: lcg_next(self.nkeys, self.find_seq), ..self }
    }

    /// A slot with this tag turns the generator.
    pub open spec fn twists(self, tag: Operation) -> bool {
        match tag {
            Operation::Read | Operation::Update => true,
            Operation::Remove => self.erase_seq == self.insert_seq,
            Operation::Insert | Operation::Upsert => false,
        }
    }

    /// The probe of a lookup or an update: none while `find_seq` points at a
    /// removed key, whose presence is not known.
    pub open spec fn find_probe(self, opcode: u8) -> Option<ProbeModel> {
        if self.find_seq >= self.erase_seq {
            Some(
                ProbeModel {
                    opcode,
                    index: self.find_seq,
                    expected: self.find_seq < self.insert_seq,
                },
            )
        } else {
            None
        }
    }

    /// What a slot with this tag sends.
    pub open spec fn probe(self, tag: Operation) -> Option<ProbeModel> {
        match tag {
            Operation::Read => self.find_probe(OPCODE_READ),
            Operation::Update => self.find_probe(OPCODE_UPDATE),
            Operation::Insert => if self.exhausted() {
                None
            } else {
                Some(ProbeModel { opcode: OPCODE_INSERT, index: self.insert_seq, expected: true })
            },
            Operation::Remove => if self.erase_seq == self.insert_seq {
                Some(ProbeModel { opcode: OPCODE_REMOVE, index: self.find_seq, expected: false })
            } else {
                Some(ProbeModel { opcode: OPCODE_REMOVE, index: self.erase_seq, expected: true })
            },
            Operation::Upsert => None,
        }
    }

    /// The state after a slot with this tag. An insertion into an exhausted
    /// state leaves it as it is.
    pub open spec fn advance(self, tag: Operation) -> SequenceModel {
        match tag {
            Operation::Read | Operation::Update => self.twisted(),
            Operation::Insert => if self.exhausted() {
                self
            } else {
                SequenceModel { insert_seq: self.insert_seq + 1, ..self }
            },
            Operation::Remove => if self.erase_seq == self.insert_seq {
                self.twisted()
            } else {
                SequenceModel { erase_seq: self.erase_seq + 1, ..self }
            },
            Operation::Upsert => self,
        }
    }

    /// The state after the slots `tags`, taken in order.
    pub open spec fn advance_all(self, tags: Seq<Operation>) -> SequenceModel
        decreases tags.len(),
    {
        if tags.len() == 0 {
            self
        } else {
            self.advance_all(tags.drop_last()).advance(tags.last())
        }
    }

    /// What the slots `tags` send, in order.
    pub open spec fn probes(self, tags: Seq<Operation>) -> Seq<ProbeModel>
        decreases tags.len(),
    {
        if tags.len() == 0 {
            Seq::empty()
        } else {
            let earlier = self.probes(tags.drop_last());
            match self.advance_all(tags.drop_last()).probe(tags.last()) {
                Some(probe) => earlier.push(probe),
                None => earlier,
            }
        }
    }

    /// How many of the slots `tags` turn the generator.
    pub open spec fn turns(self, tags: Seq<Operation>) -> nat
        decreases tags.len(),
    {
        if tags.len() == 0 {
            0
        } else {
            let before = self.advance_all(tags.drop_last());
            self.turns(tags.drop_last()) + if before.twists(tags.last()) {
                1nat
            } else {
                0nat
            }
        }
    }
}

/// What the oracle asks of the store in one slot.
#[derive(Clone, Copy, Debug, PartialEq, Eq, Structural)]
pub struct Probe {
    /// The opcode to send.
    pub opcode: u8,
    /// The index of the key in the worker's shard.
    pub index: usize,
    /// Whether the store must report the key as present.
    pub expected: bool,
}

impl View for Probe {
    type V = ProbeModel;

    open spec fn view(&self) -> ProbeModel {
        ProbeModel { opcode: self.opcode, index: self.index as nat, expected: self.expected }
    }
}

/// The view of an optional probe.
pub open spec fn probe_view(probe: Option<Probe>) -> Option<ProbeModel> {
    match probe {
        Some(p) => Some(p@),
        None => None,
    }
}

/// The oracle failed to insert: every key of the worker is already in use.
#[derive(Clone, Copy, Debug, PartialEq, Eq, Structural)]
pub struct Exhausted;

/// The oracle of one worker.
#[derive(Clone, Copy, Debug)]
pub struct KeySequenceState {
    nkeys: usize,
    insert_seq: usize,
    erase_seq: usize,
    find_seq: usize,
}

impl View for KeySequenceState {
    type V = SequenceModel;

    closed spec fn view(&self) -> SequenceModel {
        SequenceModel {
            nkeys: self.nkeys as nat,
            insert_seq: self.insert_seq as nat,
            erase_seq: self.erase_seq as nat,
            find_seq: self.find_seq as nat,
        }
    }
}

/// Masking with `n - 1` takes the remainder by `n` when `n` is a power of two.
/// The word range is `n` times the returned factor.
proof fn lemma_mask_is_remainder(n: usize, w: usize) -> (k: nat)
    requires
        is_pow2(n as int),
    ensures
        n >= 1,
        w & ((n - 1) as usize) == w % n,
        k > 0,
        usize::MAX + 1 == n * k,
{
    let e = lemma_pow2_exponent(n);
    unsigned_int_max_values();
    let bits = usize::BITS as nat;
    lemma_pow2_pos(e);
    lemma_usize_low_bits_mask_is_mod(w, e);
    let k = pow2((bits - e) as nat);
    lemma_pow2_adds(e, (bits - e) as nat);
    lemma_pow2_pos((bits - e) as nat);
    k
}

/// For a power of two the generator's remainder is a mask: where the exact
/// value fits the machine word, `lcg_next` is `(a * x + c) & (nkeys - 1)`.
pub proof fn lemma_lcg_next_is_masked(nkeys: usize, x: usize)
    requires
        is_pow2(nkeys as int),
        lcg_multiplier(nkeys as nat) * x + lcg_increment(nkeys as nat) <= usize::MAX,
    ensures
        lcg_next(nkeys as nat, x as nat) == ((lcg_multiplier(nkeys as nat) * x + lcg_increment(
            nkeys as nat,
        )) as usize) & ((nkeys - 1) as usize),
{
    let exact = (lcg_multiplier(nkeys as nat) * x + lcg_increment(nkeys as nat)) as usize;
    lemma_mask_is_remainder(nkeys, exact);
}

/// The wrapped product and sum of the generator leave the remainder by `n` of
/// the exact value.
proof fn lemma_wrapped_turn(n: usize, a: usize, x: usize, c: usize, w: usize)
    requires
        is_pow2(n as int),
        w == vstd::wrapping::usize_specs::wrapping_add(
            vstd::wrapping::usize_specs::wrapping_mul(a, x),
            c,
        ),
    ensures
        w & ((n - 1) as usize) == (a * x + c) % (n as int),
{
    let k = lemma_mask_is_remainder(n, w);
    let range: int = usize::MAX + 1;
    let exact: int = a * x;
    let m: int = exact % range;
    assert(0 <= exact) by (nonlinear_arith)
        requires
            exact == a * x,
    ;
    assert(m % (n as int) == exact % (n as int)) by {
        lemma_mod_mod(exact, n as int, k as int);
    }
    assert((w as int) % (n as int) == (m + c) % (n as int)) by {
        if m + c > usize::MAX {
            lemma_mod_multiples_vanish(k as int, w as int, n as int);
        }
    }
    assert((m + c) % (n as int) == (exact + c) % (n as int)) by {
        lemma_add_mod_noop(m, c as int, n as int);
        lemma_add_mod_noop(exact, c as int, n as int);
    }
}

impl KeySequenceState {
    #[verifier::type_invariant]
    spec fn well_formed(self) -> bool {
        self@.valid()
    }

    /// Starts the oracle of a worker that holds `nkeys` keys, the first
    /// `prefilled` of which are in the store.
    pub fn new(nkeys: usize, prefilled: usize) -> (made: Result<KeySequenceState, ConfigError>)
        ensures
            !(is_pow2(nkeys as int) && nkeys > 4) <==> made == Err::<KeySequenceState, ConfigError>(
                ConfigError::KeyCount,
            ),
            is_pow2(nkeys as int) && nkeys > 4 && prefilled > nkeys <==> made == Err::<
                KeySequenceState,
                ConfigError,
            >(ConfigError::KeysExhausted),
            made is Ok <==> is_pow2(nkeys as int) && nkeys > 4 && prefilled <= nkeys,
            made matches Ok(state) ==> state@ == SequenceModel::initial(
                nkeys as nat,
                prefilled as nat,
            ) && state@.valid(),
    {
        if !(is_power_of_two(nkeys) && nkeys > 4) {
            return Err(ConfigError::KeyCount);
        }
        if prefilled > nkeys {
            return Err(ConfigError::KeysExhausted);
        }
        Ok(KeySequenceState { nkeys, insert_seq: prefilled, erase_seq: 0, find_seq: 0 })
    }

    /// The number of keys the worker holds.
    pub fn nkeys(&self) -> (n: usize)
        ensures
            self@.valid(),
            n == self@.nkeys,
    {
        proof {
            use_type_invariant(self);
        }
        self.nkeys
    }

    /// The number of keys inserted so far, the prefilled ones included.
    pub fn insert_seq(&self) -> (n: usize)
        ensures
            self@.valid(),
            n == self@.insert_seq,
    {
        proof {
            use_type_invariant(self);
        }
        self.insert_seq
    }

    /// The number of keys removed so far.
    pub fn erase_seq(&self) -> (n: usize)
        ensures
            self@.valid(),
            n == self@.erase_seq,
    {
        proof {
            use_type_invariant(self);
        }
        self.erase_seq
    }

    /// The index the next lookup would touch.
    pub fn find_seq(&self) -> (n: usize)
        ensures
            self@.valid(),
            n == self@.find_seq,
    {
        proof {
            use_type_invariant(self);
        }
        self.find_seq
    }

    /// The multiplier of the generator, `nkeys / 2 + 1`.
    pub fn multiplier(&self) -> (a: usize)
        ensures
            a == lcg_multiplier(self@.nkeys),
    {
        proof {
            use_type_invariant(self);
        }
        self.nkeys / 2 + 1
    }

    /// The increment of the generator, `nkeys / 4 - 1`.
    pub fn increment(&self) -> (c: usize)
        ensures
            c == lcg_increment(self@.nkeys),
    {
        proof {
            use_type_invariant(self);
        }
        self.nkeys / 4 - 1
    }

    /// The mask of the generator, `nkeys - 1`.
    pub fn mask(&self) -> (mask: usize)
        ensures
            mask == self@.nkeys - 1,
    {
        proof {
            use_type_invariant(self);
        }
        self.nkeys - 1
    }

    /// Turns the generator once.
    fn twist(&mut self)
        ensures
            final(self)@ == old(self)@.twisted(),
    {
        proof {
            use_type_invariant(&*self);
        }
        let a: usize = self.multiplier();
        let c: usize = self.increment();
        let mask: usize = self.mask();
        let w: usize = a.wrapping_mul(self.find_seq).wrapping_add(c);
        proof {
            lemma_wrapped_turn(self.nkeys, a, self.find_seq, c, w);
            lemma_mask_is_remainder(self.nkeys, w);
        }
        self.find_seq = w & mask;
    }

    /// The probe of a lookup or an update at the current `find_seq`.
    fn find_probe(&self, opcode: u8) -> (probe: Option<Probe>)
        ensures
            probe_view(probe) == self@.find_probe(opcode),
    {
        if self.find_seq >= self.erase_seq {
            Some(Probe { opcode, index: self.find_seq, expected: self.find_seq < self.insert_seq })
        } else {
            None
        }
    }

    /// Takes one slot of the mix: returns what to send for it, if anything,
    /// and moves the cursors.
    ///
    /// An insertion when every key is already in use fails and leaves the
    /// state as it was.
    pub fn step(&mut self, tag: Operation) -> (sent: Result<Option<Probe>, Exhausted>)
        ensures
            final(self)@.valid(),
            final(self)@ == old(self)@.advance(tag),
            sent is Err <==> tag == Operation::Insert && old(self)@.exhausted(),
            sent matches Ok(probe) ==> probe_view(probe) == old(self)@.probe(tag),
    {
        proof {
            use_type_invariant(&*self);
        }
        let sent = match tag {
            Operation::Read => {
                let probe = self.find_probe(OPCODE_READ);
                self.twist();
                Ok(probe)
            },
            Operation::Update => {
                let probe = self.find_probe(OPCODE_UPDATE);
                self.twist();
                Ok(probe)
            },
            Operation::Insert => {
                if self.insert_seq >= self.nkeys {
                    Err(Exhausted)
                } else {
                    let probe = Probe {
                        opcode: OPCODE_INSERT,
                        index: self.insert_seq,
                        expected: true,
                    };
                    self.insert_seq = self.insert_seq + 1;
                    Ok(Some(probe))
                }
            },
            Operation::Remove => {
                if self.erase_seq == self.insert_seq {
                    let probe = Probe {
                        opcode: OPCODE_REMOVE,
                        index: self.find_seq,
                        expected: false,
                    };
                    self.twist();
                    Ok(Some(probe))
                } else {
                    let probe = Probe {
                        opcode: OPCODE_REMOVE,
                        index: self.erase_seq,
                        expected: true,
                    };
                    self.erase_seq = self.erase_seq + 1;
                    Ok(Some(probe))
                }
            },
            Operation::Upsert => Ok(None),
        };
        proof {
            use_type_invariant(&*self);
        }
        sent
    }
}

/// A slot never breaks the invariant `0 <= erase_seq <= insert_seq <= nkeys`,
/// and `find_seq` stays an index.
pub proof fn lemma_advance_keeps_invariant(state: SequenceModel, tag: Operation)
    requires
        state.valid(),
    ensures
        state.advance(tag).valid(),
        state.advance(tag).nkeys == state.nkeys,
{
    lemma_mod_bound(
        (lcg_multiplier(state.nkeys) * state.find_seq + lcg_increment(state.nkeys)) as int,
        state.nkeys as int,
    );
}

/// The invariant holds at every point of a run: after any number of slots,
/// whatever their tags.
pub proof fn lemma_invariant_holds_throughout(state: SequenceModel, tags: Seq<Operation>)
    requires
        state.valid(),
    ensures
        forall|n: int|
            0 <= n <= tags.len() ==> (#[trigger] state.advance_all(tags.take(n))).valid(),
        forall|n: int|
            0 <= n <= tags.len() ==> (#[trigger] state.advance_all(tags.take(n))).nkeys
                == state.nkeys,
{
    assert forall|n: int| 0 <= n <= tags.len() implies {
        &&& (#[trigger] state.advance_all(tags.take(n))).valid()
        &&& state.advance_all(tags.take(n)).nkeys == state.nkeys
    } by {
        lemma_run_keeps_invariant(state, tags.take(n));
    }
}

/// The invariant holds after a run.
pub proof fn lemma_run_keeps_invariant(state: SequenceModel, tags: Seq<Operation>)
    requires
        state.valid(),
    ensures
        state.advance_all(tags).valid(),
        state.advance_all(tags).nkeys == state.nkeys,
    decreases tags.len(),
{
    if tags.len() > 0 {
        lemma_run_keeps_invariant(state, tags.drop_last());
        lemma_advance_keeps_invariant(state.advance_all(tags.drop_last()), tags.last());
    }
}

/// A run can be cut anywhere: its second part starts from the state the first
/// part ends in, and what the run sends is what the first part sends followed
/// by what the second part sends.
pub proof fn lemma_run_in_two_parts(
    state: SequenceModel,
    first: Seq<Operation>,
    second: Seq<Operation>,
)
    ensures
        state.advance_all(first + second) == state.advance_all(first).advance_all(second),
        state.probes(first + second) == state.probes(first) + state.advance_all(first).probes(
            second,
        ),
    decreases second.len(),
{
    if second.len() > 0 {
        assert((first + second).drop_last() =~= first + second.drop_last());
        lemma_run_in_two_parts(state, first, second.drop_last());
    }
}

/// A turn of the generator never lands where it started, so no two turns in
/// a row look at the same index.
pub proof fn lemma_turn_moves(nkeys: nat, x: nat)
    requires
        is_pow2(nkeys as int),
        nkeys > 4,
        x < nkeys,
    ensures
        lcg_next(nkeys, x) != x,
        lcg_next(nkeys, x) < nkeys,
{
    reveal_with_fuel(is_pow2, 3);
    let n = nkeys as int;
    let half = n / 2;
    let c = lcg_increment(nkeys) as int;
    let y = x as int / 2;
    // The multiple of the modulus in `half * x` falls away; what is left of
    // the exact value lies strictly between `x` and `x + n`.
    let rest: int = if x % 2 == 0 {
        x + c
    } else {
        half + x + c
    };
    assert(half * x == n * y + (rest - x - c)) by (nonlinear_arith)
        requires
            n == 2 * half,
            x == 2 * y + x % 2,
            rest - x - c == (if x % 2 == 0 {
                0
            } else {
                half
            }),
            x % 2 == 0 || x % 2 == 1,
    ;
    assert(lcg_multiplier(nkeys) * x == half * x + x) by (nonlinear_arith)
        requires
            lcg_multiplier(nkeys) == half + 1,
    ;
    assert(lcg_multiplier(nkeys) * x + lcg_increment(nkeys) == n * y + rest);
    lemma_mod_multiples_vanish(y, rest, n);
    assert(x < rest < x + n);
    if rest < n {
        lemma_small_mod(rest as nat, nkeys);
    } else {
        lemma_mod_multiples_vanish(1, rest - n, n);
        lemma_small_mod((rest - n) as nat, nkeys);
    }
}

/// The walk of `find_seq` depends on nothing but the number of keys: a state
/// whose `find_seq` stands at turn `at` of the generator stands, after a run, at
/// the turn that lies as many turns further as the run has slots that turn it.
pub proof fn lemma_find_seq_follows_orbit(state: SequenceModel, at: nat, tags: Seq<Operation>)
    requires
        state.find_seq == lcg_orbit(state.nkeys, at),
    ensures
        state.advance_all(tags).nkeys == state.nkeys,
        state.advance_all(tags).find_seq == lcg_orbit(state.nkeys, at + state.turns(tags)),
    decreases tags.len(),
{
    if tags.len() > 0 {
        lemma_find_seq_follows_orbit(state, at, tags.drop_last());
    }
}

/// Two runs over the same number of keys that start with `find_seq` at 0 and
/// turn the generator equally often end on the same `find_seq`, whatever else
/// differs between them.
pub proof fn lemma_find_seq_is_reproducible(
    first: SequenceModel,
    first_tags: Seq<Operation>,
    second: SequenceModel,
    second_tags: Seq<Operation>,
)
    requires
        first.nkeys == second.nkeys,
        first.find_seq == 0,
        second.find_seq == 0,
        first.turns(first_tags) == second.turns(second_tags),
    ensures
        first.advance_all(first_tags).find_seq == second.advance_all(second_tags).find_seq,
{
    lemma_find_seq_follows_orbit(first, 0, first_tags);
    lemma_find_seq_follows_orbit(second, 0, second_tags);
}

} // verus!
