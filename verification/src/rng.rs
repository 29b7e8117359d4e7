//! The pseudo-random source of a run: it orders the workload mix and draws
//! the keys of every worker.
//!
//! One generator is seeded per run. Each worker gets a generator of its own,
//! forked from it, so a run is a function of its seed and no worker shares
//! mutable state with another.
//!
//! The generator is `SmallRng` of `rand`. With a seed of 32 bytes that is
//! xoshiro256++: what it hands out and the state it is left in follow from
//! the state it was in and from nothing else. The contracts below say so by
//! giving each result a name; they do not say what the results are.

use crate::operation::Operation;
use rand::rngs::SmallRng;
use rand::seq::SliceRandom;
use rand::{RngCore, SeedableRng};
use vstd::prelude::*;

verus! {

#[verifier::external_type_specification]
#[verifier::external_body]
pub struct ExSmallRng(SmallRng);

/// What a generator holds: the words of its state.
pub uninterp spec fn rng_state(rng: SmallRng) -> Seq<u64>;

/// The state that `SmallRng::from_seed` makes of a seed.
pub uninterp spec fn seeded_state(seed: Seq<u8>) -> Seq<u64>;

/// What `RngCore::fill_bytes` writes into a buffer of `count` bytes from a
/// state, and the state it leaves.
pub uninterp spec fn filled_bytes(state: Seq<u64>, count: nat) -> (Seq<u8>, Seq<u64>);

/// What `RngCore::next_u64` returns from a state, and the state it leaves.
pub uninterp spec fn next_word(state: Seq<u64>) -> (u64, Seq<u64>);

/// Where `SliceRandom::shuffle` takes each element of a slice of `len`
/// elements from, and the state it leaves: element `i` of the result is
/// element `order[i]` of the slice.
pub uninterp spec fn shuffle_order(state: Seq<u64>, len: nat) -> (Seq<int>, Seq<u64>);

/// `tags` put in the order `order`: element `i` is `tags[order[i]]`.
pub open spec fn rearranged(tags: Seq<Operation>, order: Seq<int>) -> Seq<Operation> {
    Seq::new(tags.len(), |at: int| tags[order[at]])
}

/// The state of the generator that is split off a generator in `state`, and
/// the state the latter is left in: a seed of 32 bytes is drawn and a
/// generator seeded with it.
pub open spec fn forked(state: Seq<u64>) -> (Seq<u64>, Seq<u64>) {
    (seeded_state(filled_bytes(state, 32).0), filled_bytes(state, 32).1)
}

/// The `count` keys that a generator in `state` draws one after another, and
/// the state it is left in.
pub open spec fn drawn_keys(state: Seq<u64>, count: nat) -> (Seq<u64>, Seq<u64>)
    decreases count,
{
    if count == 0 {
        (Seq::empty(), state)
    } else {
        let earlier = drawn_keys(state, (count - 1) as nat);
        (earlier.0.push(next_word(earlier.1).0), next_word(earlier.1).1)
    }
}

/// `SmallRng::from_seed` of `rand`: makes the state of the generator from
/// the seed and from nothing else. Which state is not claimed.
#[verifier::external_body]
fn rng_from_seed(seed: [u8; 32]) -> (rng: SmallRng)
    ensures
        rng_state(rng) == seeded_state(seed@),
{
    SmallRng::from_seed(seed)
}

/// `RngCore::fill_bytes` of `rand` on a fresh buffer of seed size: writes
/// every byte of the buffer. The bytes and the state afterwards follow from
/// the state before and the buffer's length. Which bytes is not claimed.
#[verifier::external_body]
fn rng_draw_seed(rng: &mut SmallRng) -> (seed: [u8; 32])
    ensures
        seed@ == filled_bytes(rng_state(*old(rng)), 32).0,
        rng_state(*final(rng)) == filled_bytes(rng_state(*old(rng)), 32).1,
{
    let mut seed = [0u8; 32];
    rng.fill_bytes(&mut seed[..]);
    seed
}

/// `RngCore::next_u64` of `rand`: the next 64 bits of the generator. The
/// value and the state afterwards follow from the state before. Which value
/// is not claimed.
#[verifier::external_body]
fn rng_next_u64(rng: &mut SmallRng) -> (value: u64)
    ensures
        value == next_word(rng_state(*old(rng))).0,
        rng_state(*final(rng)) == next_word(rng_state(*old(rng))).1,
{
    rng.next_u64()
}

/// `SliceRandom::shuffle` of `rand`: reorders the slice in place by swapping
/// pairs of its elements, so what comes out is a rearrangement of what went
/// in. Which elements are swapped follows from the state of the generator
/// and the length of the slice, not from what the slice holds. Which
/// rearrangement it is is not claimed.
#[verifier::external_body]
fn rng_shuffle(rng: &mut SmallRng, tags: &mut Vec<Operation>)
    ensures
        final(tags)@.len() == old(tags)@.len(),
        final(tags)@.to_multiset() == old(tags)@.to_multiset(),
        final(tags)@ == rearranged(
            old(tags)@,
            shuffle_order(rng_state(*old(rng)), old(tags)@.len()).0,
        ),
        rng_state(*final(rng)) == shuffle_order(rng_state(*old(rng)), old(tags)@.len()).1,
{
    tags.shuffle(rng);
}

/// A seeded pseudo-random generator.
#[derive(Debug)]
pub struct KeyRng {
    inner: SmallRng,
}

impl View for KeyRng {
    type V = Seq<u64>;

    /// The state of the generator.
    closed spec fn view(&self) -> Seq<u64> {
        rng_state(self.inner)
    }
}

impl KeyRng {
    /// Makes the generator of a run from its seed. Equal seeds make
    /// generators in the same state.
    pub fn from_seed(seed: [u8; 32]) -> (rng: KeyRng)
        ensures
            rng@ == seeded_state(seed@),
    {
        KeyRng { inner: rng_from_seed(seed) }
    }

    /// Splits off the generator of one worker: draws a seed from this
    /// generator and seeds a new one with it.
    pub fn fork(&mut self) -> (child: KeyRng)
        ensures
            child@ == forked(old(self)@).0,
            final(self)@ == forked(old(self)@).1,
    {
        let seed = rng_draw_seed(&mut self.inner);
        KeyRng { inner: rng_from_seed(seed) }
    }

    /// Draws the keys of one worker: `count` keys, in the order drawn.
    pub fn key_shard(&mut self, count: usize) -> (keys: Vec<u64>)
        ensures
            keys.len() == count,
            keys@ == drawn_keys(old(self)@, count as nat).0,
            final(self)@ == drawn_keys(old(self)@, count as nat).1,
    {
        let mut keys: Vec<u64> = Vec::with_capacity(count);
        let mut drawn: usize = 0;
        while drawn < count
            invariant
                drawn <= count,
                keys.len() == drawn,
                keys@ == drawn_keys(old(self)@, drawn as nat).0,
                self@ == drawn_keys(old(self)@, drawn as nat).1,
            decreases count - drawn,
        {
            let key: u64 = rng_next_u64(&mut self.inner);
            keys.push(key);
            drawn = drawn + 1;
        }
        keys
    }

    /// Rearranges `tags` in place, in an order that follows from the state of
    /// the generator and the number of tags. The result holds every tag as
    /// often as before.
    pub(crate) fn shuffle(&mut self, tags: &mut Vec<Operation>)
        ensures
            final(tags)@.len() == old(tags)@.len(),
            final(tags)@.to_multiset() == old(tags)@.to_multiset(),
            final(tags)@ == rearranged(
                old(tags)@,
                shuffle_order(old(self)@, old(tags)@.len()).0,
            ),
            final(self)@ == shuffle_order(old(self)@, old(tags)@.len()).1,
    {
        rng_shuffle(&mut self.inner, tags);
    }
}

} // verus!
