//! The workload mix: a cycle of 100 operation tags that holds each tag as
//! often as its percentage says, in random order.

use crate::error::ConfigError;
use crate::operation::Operation;
use crate::rng::{rearranged, shuffle_order, KeyRng};
use crate::workload::{WorkloadModel, WorkloadSpec, MIX_SLOTS};
use vstd::multiset::{lemma_insert_increases_count_by_1, lemma_insert_other_elements_unchanged};
use vstd::prelude::*;
use vstd::seq_lib::{lemma_multiset_commutative, to_multiset_build};

verus! {

/// `copies` times the same tag.
pub open spec fn block(tag: Operation, copies: nat) -> Seq<Operation> {
    Seq::new(copies, |slot: int| tag)
}

/// The mix before it is shuffled: the lookups, then the insertions, the
/// removals, the updates and the upserts.
pub open spec fn ordered_tags(workload: WorkloadModel) -> Seq<Operation> {
    block(Operation::Read, workload.read) + block(Operation::Insert, workload.insert) + block(
        Operation::Remove,
        workload.remove,
    ) + block(Operation::Update, workload.update) + block(Operation::Upsert, workload.upsert)
}

/// How often `tag` occurs in `tags`.
pub open spec fn occurrences(tags: Seq<Operation>, tag: Operation) -> nat {
    tags.to_multiset().count(tag)
}

/// The tag of a slot of a run: the mix is walked in order, over and over.
pub open spec fn tag_of_slot(mix: Seq<Operation>, slot: nat) -> Operation {
    mix[(slot % 100) as int]
}

/// A block holds its tag `copies` times and no other tag.
pub proof fn lemma_block_occurrences(tag: Operation, copies: nat, other: Operation)
    ensures
        occurrences(block(tag, copies), other) == if other == tag {
            copies
        } else {
            0
        },
    decreases copies,
{
    if copies == 0 {
        block(tag, copies).to_multiset_ensures();
        vstd::multiset::lemma_multiset_empty_len(block(tag, copies).to_multiset());
    } else {
        let shorter = block(tag, (copies - 1) as nat);
        lemma_block_occurrences(tag, (copies - 1) as nat, other);
        assert(block(tag, copies) =~= shorter.push(tag));
        to_multiset_build(shorter, tag);
        if other == tag {
            lemma_insert_increases_count_by_1(shorter.to_multiset(), tag);
        } else {
            lemma_insert_other_elements_unchanged(shorter.to_multiset(), tag, other);
        }
    }
}

/// The tags of two sequences put end to end occur as often as in both.
pub proof fn lemma_occurrences_of_concat(
    front: Seq<Operation>,
    back: Seq<Operation>,
    tag: Operation,
)
    ensures
        occurrences(front + back, tag) == occurrences(front, tag) + occurrences(back, tag),
{
    lemma_multiset_commutative(front, back);
}

/// The unshuffled mix has one slot per percent and holds every tag as often
/// as its percentage says.
pub proof fn lemma_ordered_tags_shares(workload: WorkloadModel, tag: Operation)
    ensures
        ordered_tags(workload).len() == workload.read + workload.insert + workload.remove
            + workload.update + workload.upsert,
        occurrences(ordered_tags(workload), tag) == workload.share(tag),
{
    let reads = block(Operation::Read, workload.read);
    let inserts = block(Operation::Insert, workload.insert);
    let removes = block(Operation::Remove, workload.remove);
    let updates = block(Operation::Update, workload.update);
    let upserts = block(Operation::Upsert, workload.upsert);
    lemma_block_occurrences(Operation::Read, workload.read, tag);
    lemma_block_occurrences(Operation::Insert, workload.insert, tag);
    lemma_block_occurrences(Operation::Remove, workload.remove, tag);
    lemma_block_occurrences(Operation::Update, workload.update, tag);
    lemma_block_occurrences(Operation::Upsert, workload.upsert, tag);
    lemma_occurrences_of_concat(reads, inserts, tag);
    lemma_occurrences_of_concat(reads + inserts, removes, tag);
    lemma_occurrences_of_concat(reads + inserts + removes, updates, tag);
    lemma_occurrences_of_concat(reads + inserts + removes + updates, upserts, tag);
}

/// Appends `copies` copies of `tag`.
fn push_block(tags: &mut Vec<Operation>, tag: Operation, copies: u8)
    ensures
        final(tags)@ == old(tags)@ + block(tag, copies as nat),
{
    let mut pushed: u8 = 0;
    while pushed < copies
        invariant
            pushed <= copies,
            tags@ == old(tags)@ + block(tag, pushed as nat),
        decreases copies - pushed,
    {
        tags.push(tag);
        pushed = pushed + 1;
    }
}

/// The workload mix of a run: exactly 100 tags, walked as a cycle.
#[derive(Debug)]
pub struct OperationMix {
    tags: Vec<Operation>,
}

impl View for OperationMix {
    type V = Seq<Operation>;

    closed spec fn view(&self) -> Seq<Operation> {
        self.tags@
    }
}

impl Clone for OperationMix {
    fn clone(&self) -> (copy: OperationMix)
        ensures
            copy@ == self@,
    {
        proof {
            use_type_invariant(self);
        }
        let mut tags: Vec<Operation> = Vec::with_capacity(MIX_SLOTS);
        let mut slot: usize = 0;
        while slot < MIX_SLOTS
            invariant
                slot <= 100,
                self.tags@.len() == 100,
                tags@ == self.tags@.take(slot as int),
            decreases 100 - slot,
        {
            tags.push(self.tags[slot]);
            slot = slot + 1;
        }
        OperationMix { tags }
    }
}

impl OperationMix {
    #[verifier::type_invariant]
    spec fn well_formed(self) -> bool {
        self.tags@.len() == 100
    }

    /// The mix of `workload` before shuffling.
    pub fn ordered(workload: &WorkloadSpec) -> (mix: OperationMix)
        ensures
            mix@ == ordered_tags(workload@),
            mix@.len() == 100,
    {
        let mut tags: Vec<Operation> = Vec::with_capacity(MIX_SLOTS);
        push_block(&mut tags, Operation::Read, workload.share(Operation::Read));
        push_block(&mut tags, Operation::Insert, workload.share(Operation::Insert));
        push_block(&mut tags, Operation::Remove, workload.share(Operation::Remove));
        push_block(&mut tags, Operation::Update, workload.share(Operation::Update));
        push_block(&mut tags, Operation::Upsert, workload.share(Operation::Upsert));
        OperationMix { tags }
    }

    /// Builds the mix of `workload`: its tags, each as often as its
    /// percentage says, in an order drawn from `rng`. The order follows from
    /// the state of `rng`, so a run with the same seed walks the same mix.
    pub fn generate(workload: &WorkloadSpec, rng: &mut KeyRng) -> (mix: OperationMix)
        ensures
            mix@.len() == 100,
            mix@.to_multiset() == ordered_tags(workload@).to_multiset(),
            forall|tag: Operation| #[trigger] occurrences(mix@, tag) == workload@.share(tag),
            mix@ == rearranged(ordered_tags(workload@), shuffle_order(old(rng)@, 100).0),
            final(rng)@ == shuffle_order(old(rng)@, 100).1,
    {
        let ordered = OperationMix::ordered(workload);
        let mut tags: Vec<Operation> = ordered.tags;
        rng.shuffle(&mut tags);
        proof {
            assert forall|tag: Operation| #[trigger]
                occurrences(tags@, tag) == workload@.share(tag) by {
                lemma_ordered_tags_shares(workload@, tag);
            }
        }
        OperationMix { tags }
    }

    /// Takes a mix as given; fails unless it has exactly 100 tags.
    pub fn from_tags(tags: Vec<Operation>) -> (made: Result<OperationMix, ConfigError>)
        ensures
            made is Ok <==> tags@.len() == 100,
            made matches Err(e) ==> e == ConfigError::MixSum,
            made matches Ok(mix) ==> mix@ == tags@,
    {
        if tags.len() != MIX_SLOTS {
            Err(ConfigError::MixSum)
        } else {
            Ok(OperationMix { tags })
        }
    }

    /// The number of slots of the mix: always 100.
    pub fn len(&self) -> (slots: usize)
        ensures
            slots == 100,
            self@.len() == 100,
    {
        proof {
            use_type_invariant(self);
        }
        self.tags.len()
    }

    /// The tag of slot `slot` of a run.
    pub fn tag_at(&self, slot: usize) -> (tag: Operation)
        ensures
            self@.len() == 100,
            tag == tag_of_slot(self@, slot as nat),
    {
        proof {
            use_type_invariant(self);
        }
        self.tags[slot % MIX_SLOTS]
    }

    /// How often `tag` occurs in the mix.
    pub fn count(&self, tag: Operation) -> (found: usize)
        ensures
            found == occurrences(self@, tag),
            found <= 100,
    {
        proof {
            use_type_invariant(self);
        }
        let mut found: usize = 0;
        let mut slot: usize = 0;
        proof {
            lemma_block_occurrences(tag, 0, tag);
            assert(self.tags@.take(0) =~= block(tag, 0));
        }
        while slot < MIX_SLOTS
            invariant
                slot <= 100,
                self.tags@.len() == 100,
                found <= slot,
                found == occurrences(self.tags@.take(slot as int), tag),
            decreases 100 - slot,
        {
            proof {
                let shorter = self.tags@.take(slot as int);
                assert(self.tags@.take(slot + 1) =~= shorter.push(self.tags@[slot as int]));
                to_multiset_build(shorter, self.tags@[slot as int]);
                if self.tags@[slot as int] == tag {
                    lemma_insert_increases_count_by_1(shorter.to_multiset(), tag);
                } else {
                    lemma_insert_other_elements_unchanged(
                        shorter.to_multiset(),
                        self.tags@[slot as int],
                        tag,
                    );
                }
            }
            if self.tags[slot] == tag {
                found = found + 1;
            }
            slot = slot + 1;
        }
        assert(self.tags@.take(100) =~= self.tags@);
        found
    }

    /// The tags of the mix, in order.
    pub fn tags(&self) -> (tags: &Vec<Operation>)
        ensures
            tags@ == self@,
            tags@.len() == 100,
    {
        proof {
            use_type_invariant(self);
        }
        &self.tags
    }
}

} // verus!
