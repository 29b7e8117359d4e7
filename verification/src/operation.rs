//! The operation vocabulary shared by the workload mix, the key sequence
//! oracle and the wire codec.

use vstd::prelude::*;

verus! {

/// Opcode of an unused record slot; a frame made only of these closes a phase.
pub const OPCODE_IDLE: u8 = 0;

/// Opcode of a lookup.
pub const OPCODE_READ: u8 = 1;

/// Opcode of an insertion.
pub const OPCODE_INSERT: u8 = 2;

/// Opcode of a removal.
pub const OPCODE_REMOVE: u8 = 3;

/// Opcode of an in-place update.
pub const OPCODE_UPDATE: u8 = 4;

/// One tag of the workload mix.
#[derive(Clone, Copy, Debug, PartialEq, Eq, Hash, Structural)]
pub enum Operation {
    /// Look a key up.
    Read,
    /// Insert a key that is not in the store.
    Insert,
    /// Remove a key.
    Remove,
    /// Overwrite the value of a key.
    Update,
    /// Insert or overwrite. The tag takes its slot of the mix and sends
    /// nothing.
    Upsert,
}

impl Operation {
    /// The opcode that carries this tag on the wire. `Upsert` has none: the
    /// protocol has no record for it.
    pub open spec fn wire_opcode(self) -> Option<u8> {
        match self {
            Operation::Read => Some(OPCODE_READ),
            Operation::Insert => Some(OPCODE_INSERT),
            Operation::Remove => Some(OPCODE_REMOVE),
            Operation::Update => Some(OPCODE_UPDATE),
            Operation::Upsert => None,
        }
    }

    /// The tag that an opcode stands for, if it stands for one.
    pub open spec fn of_opcode(opcode: u8) -> Option<Operation> {
        if opcode == OPCODE_READ {
            Some(Operation::Read)
        } else if opcode == OPCODE_INSERT {
            Some(Operation::Insert)
        } else if opcode == OPCODE_REMOVE {
            Some(Operation::Remove)
        } else if opcode == OPCODE_UPDATE {
            Some(Operation::Update)
        } else {
            None
        }
    }

    /// Returns the opcode of this tag, `None` for `Upsert`.
    pub fn opcode(self) -> (code: Option<u8>)
        ensures
            code == self.wire_opcode(),
    {
        match self {
            Operation::Read => Some(OPCODE_READ),
            Operation::Insert => Some(OPCODE_INSERT),
            Operation::Remove => Some(OPCODE_REMOVE),
            Operation::Update => Some(OPCODE_UPDATE),
            Operation::Upsert => None,
        }
    }

    /// Reads an opcode back into its tag: `None` for the idle opcode and for
    /// every value the protocol does not define.
    pub fn from_opcode(opcode: u8) -> (tag: Option<Operation>)
        ensures
            tag == Operation::of_opcode(opcode),
    {
        if opcode == OPCODE_READ {
            Some(Operation::Read)
        } else if opcode == OPCODE_INSERT {
            Some(Operation::Insert)
        } else if opcode == OPCODE_REMOVE {
            Some(Operation::Remove)
        } else if opcode == OPCODE_UPDATE {
            Some(Operation::Update)
        } else {
            None
        }
    }
}

/// Every tag that has an opcode is read back from it, and no tag maps to the
/// idle opcode.
pub proof fn lemma_opcode_round_trip(tag: Operation)
    ensures
        tag.wire_opcode() matches Some(code) ==> code != OPCODE_IDLE && Operation::of_opcode(code)
            == Some(tag),
        tag.wire_opcode() is None <==> tag == Operation::Upsert,
{
}

} // verus!
