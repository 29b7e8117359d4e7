//! What a run is asked to do: the share of each operation and how much of the
//! table is filled before the clock starts.

use crate::error::ConfigError;
use crate::operation::Operation;
use vstd::prelude::*;
use vstd::string::StrSliceExecFns;

verus! {

/// Slots of a workload mix, and the sum its percentages must reach.
pub const MIX_SLOTS: usize = 100;

/// The share of the table's capacity that is filled before the timed phase,
/// as a fraction `numerator / denominator` between 0 and 1.
#[derive(Clone, Copy, Debug)]
pub struct PrefillFraction {
    numerator: u64,
    denominator: u64,
}

impl PrefillFraction {
    #[verifier::type_invariant]
    spec fn well_formed(self) -> bool {
        self.numerator <= self.denominator && self.denominator > 0
    }

    /// The numerator.
    pub closed spec fn spec_numerator(self) -> nat {
        self.numerator as nat
    }

    /// The denominator.
    pub closed spec fn spec_denominator(self) -> nat {
        self.denominator as nat
    }

    /// The fraction lies between 0 and 1.
    pub open spec fn valid(self) -> bool {
        self.spec_numerator() <= self.spec_denominator() && self.spec_denominator() > 0
    }

    /// The prefill target of a table of `capacity` entries: `capacity` times
    /// the fraction, rounded down.
    pub open spec fn target(self, capacity: nat) -> nat {
        capacity * self.spec_numerator() / self.spec_denominator()
    }

    /// Makes the fraction `numerator / denominator`; fails unless it lies
    /// between 0 and 1.
    pub fn new(numerator: u64, denominator: u64) -> (made: Result<PrefillFraction, ConfigError>)
        ensures
            made is Ok <==> numerator <= denominator && denominator > 0,
            made matches Err(e) ==> e == ConfigError::PrefillFraction,
            made matches Ok(fraction) ==> fraction.spec_numerator() == numerator
                && fraction.spec_denominator() == denominator && fraction.valid(),
    {
        if denominator == 0 || numerator > denominator {
            Err(ConfigError::PrefillFraction)
        } else {
            Ok(PrefillFraction { numerator, denominator })
        }
    }

    /// The fraction 0: nothing is prefilled.
    pub fn none() -> (fraction: PrefillFraction)
        ensures
            fraction.spec_numerator() == 0,
            fraction.spec_denominator() == 1,
            fraction.valid(),
    {
        PrefillFraction { numerator: 0, denominator: 1 }
    }

    /// The numerator.
    pub fn numerator(&self) -> (n: u64)
        ensures
            n == self.spec_numerator(),
    {
        self.numerator
    }

    /// The denominator, never 0.
    pub fn denominator(&self) -> (n: u64)
        ensures
            n == self.spec_denominator(),
            n > 0,
    {
        proof {
            use_type_invariant(self);
        }
        self.denominator
    }

    /// The number of entries to prefill in a table of `capacity` entries.
    pub fn prefill_target(&self, capacity: usize) -> (target: usize)
        ensures
            self.valid(),
            target == self.target(capacity as nat),
            target <= capacity,
    {
        proof {
            use_type_invariant(self);
        }
        assert(capacity * self.numerator <= 0xffff_ffff_ffff_ffff * 0xffff_ffff_ffff_ffff)
            by (nonlinear_arith)
            requires
                capacity <= 0xffff_ffff_ffff_ffff,
                self.numerator <= 0xffff_ffff_ffff_ffff,
        ;
        let product: u128 = (capacity as u128) * (self.numerator as u128);
        let target: u128 = product / (self.denominator as u128);
        proof {
            lemma_scaled_down(capacity as nat, self.numerator as nat, self.denominator as nat);
        }
        target as usize
    }
}

/// A fraction of `capacity` that is at most 1 is at most `capacity`.
pub proof fn lemma_scaled_down(capacity: nat, numerator: nat, denominator: nat)
    requires
        numerator <= denominator,
        denominator > 0,
    ensures
        capacity * numerator / denominator <= capacity,
{
    assert(capacity * numerator <= capacity * denominator) by (nonlinear_arith)
        requires
            numerator <= denominator,
    ;
    vstd::arithmetic::div_mod::lemma_div_is_ordered(
        (capacity * numerator) as int,
        (capacity * denominator) as int,
        denominator as int,
    );
    vstd::arithmetic::div_mod::lemma_div_multiples_vanish(capacity as int, denominator as int);
    assert(capacity * denominator == denominator * capacity) by (nonlinear_arith);
}

/// The percentages of a workload as numbers.
pub struct WorkloadModel {
    pub read: nat,
    pub insert: nat,
    pub remove: nat,
    pub update: nat,
    pub upsert: nat,
}

impl WorkloadModel {
    /// The percentages add up to 100.
    pub open spec fn valid(self) -> bool {
        self.read + self.insert + self.remove + self.update + self.upsert == 100
    }

    /// The percentage of one tag.
    pub open spec fn share(self, tag: Operation) -> nat {
        match tag {
            Operation::Read => self.read,
            Operation::Insert => self.insert,
            Operation::Remove => self.remove,
            Operation::Update => self.update,
            Operation::Upsert => self.upsert,
        }
    }
}

/// The workload of a run: five percentages that add up to 100, and the
/// prefill fraction.
#[derive(Clone, Copy, Debug)]
pub struct WorkloadSpec {
    read: u8,
    insert: u8,
    remove: u8,
    update: u8,
    upsert: u8,
    prefill: PrefillFraction,
}

impl View for WorkloadSpec {
    type V = WorkloadModel;

    closed spec fn view(&self) -> WorkloadModel {
        WorkloadModel {
            read: self.read as nat,
            insert: self.insert as nat,
            remove: self.remove as nat,
            update: self.update as nat,
            upsert: self.upsert as nat,
        }
    }
}

impl WorkloadSpec {
    #[verifier::type_invariant]
    spec fn well_formed(self) -> bool {
        self@.valid()
    }

    /// The prefill fraction.
    pub closed spec fn spec_prefill(self) -> PrefillFraction {
        self.prefill
    }

    /// Makes a workload; fails unless the percentages add up to exactly 100.
    pub fn new(
        read: u8,
        insert: u8,
        remove: u8,
        update: u8,
        upsert: u8,
        prefill: PrefillFraction,
    ) -> (made: Result<WorkloadSpec, ConfigError>)
        ensures
            made is Ok <==> read + insert + remove + update + upsert == 100,
            made matches Err(e) ==> e == ConfigError::MixSum,
            made matches Ok(workload) ==> {
                &&& workload@ == (WorkloadModel {
                    read: read as nat,
                    insert: insert as nat,
                    remove: remove as nat,
                    update: update as nat,
                    upsert: upsert as nat,
                })
                &&& workload@.valid()
                &&& workload.spec_prefill() == prefill
            },
    {
        let sum: u32 = read as u32 + insert as u32 + remove as u32 + update as u32 + upsert as u32;
        if sum != 100 {
            Err(ConfigError::MixSum)
        } else {
            Ok(WorkloadSpec { read, insert, remove, update, upsert, prefill })
        }
    }

    /// The percentage of one tag.
    pub fn share(&self, tag: Operation) -> (percent: u8)
        ensures
            self@.valid(),
            percent == self@.share(tag),
            percent <= 100,
    {
        proof {
            use_type_invariant(self);
        }
        match tag {
            Operation::Read => self.read,
            Operation::Insert => self.insert,
            Operation::Remove => self.remove,
            Operation::Update => self.update,
            Operation::Upsert => self.upsert,
        }
    }

    /// The prefill fraction.
    pub fn prefill(&self) -> (fraction: PrefillFraction)
        ensures
            fraction == self.spec_prefill(),
            fraction.valid(),
    {
        proof {
            use_type_invariant(self);
            use_type_invariant(&self.prefill);
        }
        self.prefill
    }
}

/// Tells whether two texts are the same, character by character.
pub fn same_text(left: &str, right: &str) -> (same: bool)
    ensures
        same <==> left@ == right@,
{
    let length: usize = left.unicode_len();
    if right.unicode_len() != length {
        return false;
    }
    let mut at: usize = 0;
    while at < length
        invariant
            at <= length,
            length == left@.len(),
            length == right@.len(),
            forall|earlier: int| 0 <= earlier < at ==> left@[earlier] == right@[earlier],
        decreases length - at,
    {
        if left.get_char(at) != right.get_char(at) {
            return false;
        }
        at = at + 1;
    }
    assert(left@ =~= right@);
    true
}

/// The experiments a run can be asked for.
#[derive(Clone, Copy, Debug, PartialEq, Eq, Hash, Structural)]
pub enum WorkloadKind {
    /// Almost only lookups, on a table that starts four fifths full.
    ReadHeavy,
    /// As many insertions as removals, on a table that starts four fifths
    /// full.
    Exchange,
    /// Mostly insertions, on a table that starts empty.
    RapidGrow,
}

impl WorkloadKind {
    /// The percentages of this experiment.
    pub open spec fn model(self) -> WorkloadModel {
        match self {
            WorkloadKind::ReadHeavy => WorkloadModel {
                read: 98,
                insert: 1,
                remove: 1,
                update: 0,
                upsert: 0,
            },
            WorkloadKind::Exchange => WorkloadModel {
                read: 10,
                insert: 40,
                remove: 40,
                update: 10,
                upsert: 0,
            },
            WorkloadKind::RapidGrow => WorkloadModel {
                read: 5,
                insert: 80,
                remove: 5,
                update: 10,
                upsert: 0,
            },
        }
    }

    /// The numerator of this experiment's prefill fraction, over 5.
    pub open spec fn prefill_fifths(self) -> nat {
        match self {
            WorkloadKind::ReadHeavy => 4,
            WorkloadKind::Exchange => 4,
            WorkloadKind::RapidGrow => 0,
        }
    }

    /// The workload of this experiment.
    pub fn workload(self) -> (workload: WorkloadSpec)
        ensures
            workload@ == self.model(),
            workload@.valid(),
            workload.spec_prefill().spec_numerator() == self.prefill_fifths(),
            workload.spec_prefill().spec_denominator() == 5,
    {
        match self {
            WorkloadKind::ReadHeavy => WorkloadSpec {
                read: 98,
                insert: 1,
                remove: 1,
                update: 0,
                upsert: 0,
                prefill: PrefillFraction { numerator: 4, denominator: 5 },
            },
            WorkloadKind::Exchange => WorkloadSpec {
                read: 10,
                insert: 40,
                remove: 40,
                update: 10,
                upsert: 0,
                prefill: PrefillFraction { numerator: 4, denominator: 5 },
            },
            WorkloadKind::RapidGrow => WorkloadSpec {
                read: 5,
                insert: 80,
                remove: 5,
                update: 10,
                upsert: 0,
                prefill: PrefillFraction { numerator: 0, denominator: 5 },
            },
        }
    }

    /// The name of this experiment.
    pub open spec fn spec_name(self) -> Seq<char> {
        match self {
            WorkloadKind::ReadHeavy => "ReadHeavy"@,
            WorkloadKind::Exchange => "Exchange"@,
            WorkloadKind::RapidGrow => "RapidGrow"@,
        }
    }

    /// The experiment that `text` names, if it names one. Names are matched
    /// letter for letter.
    pub open spec fn named(text: Seq<char>) -> Option<WorkloadKind> {
        if text == "ReadHeavy"@ {
            Some(WorkloadKind::ReadHeavy)
        } else if text == "Exchange"@ {
            Some(WorkloadKind::Exchange)
        } else if text == "RapidGrow"@ {
            Some(WorkloadKind::RapidGrow)
        } else {
            None
        }
    }

    /// Reads the name of an experiment; `None` if `name` names none.
    pub fn from_name(name: &str) -> (kind: Option<WorkloadKind>)
        ensures
            kind == WorkloadKind::named(name@),
    {
        if same_text(name, "ReadHeavy") {
            Some(WorkloadKind::ReadHeavy)
        } else if same_text(name, "Exchange") {
            Some(WorkloadKind::Exchange)
        } else if same_text(name, "RapidGrow") {
            Some(WorkloadKind::RapidGrow)
        } else {
            None
        }
    }

    /// The name of this experiment, as it is written on the command line and
    /// in the name of the results file.
    pub fn name(self) -> (name: &'static str)
        ensures
            name@ == self.spec_name(),
    {
        match self {
            WorkloadKind::ReadHeavy => "ReadHeavy",
            WorkloadKind::Exchange => "Exchange",
            WorkloadKind::RapidGrow => "RapidGrow",
        }
    }
}

/// Every experiment is read back from its name.
pub proof fn lemma_name_round_trip(kind: WorkloadKind)
    ensures
        WorkloadKind::named(kind.spec_name()) == Some(kind),
{
    reveal_strlit("ReadHeavy");
    reveal_strlit("Exchange");
    reveal_strlit("RapidGrow");
    // Two names have nine letters; they part at the second.
    assert("Exchange"@.len() == 8);
    assert("ReadHeavy"@[1] == 'e');
}

} // verus!
