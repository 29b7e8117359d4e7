use kvbench::error::ConfigError;
use kvbench::operation::Operation;
use kvbench::oracle::{Exhausted, KeySequenceState, Probe};

fn invariant_holds(state: &KeySequenceState) -> bool {
    state.erase_seq() <= state.insert_seq()
        && state.insert_seq() <= state.nkeys()
        && state.find_seq() < state.nkeys()
}

#[test]
fn remove_before_any_insert_probes_find_seq_and_expects_absent() {
    let mut state = KeySequenceState::new(16, 0).unwrap();
    let probe = state.step(Operation::Remove).unwrap().unwrap();
    assert_eq!(probe, Probe { opcode: 3, index: 0, expected: false });
    assert_eq!(state.find_seq(), 3);
    assert_eq!(state.erase_seq(), 0);
    assert_eq!(state.insert_seq(), 0);
}

#[test]
fn remove_on_empty_table_uses_the_current_find_seq() {
    let mut state = KeySequenceState::new(16, 0).unwrap();
    state.step(Operation::Read).unwrap();
    state.step(Operation::Read).unwrap();
    assert_eq!(state.find_seq(), 14);
    let probe = state.step(Operation::Remove).unwrap().unwrap();
    assert_eq!(probe, Probe { opcode: 3, index: 14, expected: false });
    assert_eq!(state.find_seq(), 1);
}

#[test]
fn sixteen_inserts_fill_sixteen_keys() {
    let mut state = KeySequenceState::new(16, 0).unwrap();
    for index in 0..16 {
        let probe = state.step(Operation::Insert).unwrap().unwrap();
        assert_eq!(probe, Probe { opcode: 2, index, expected: true });
        assert!(invariant_holds(&state));
    }
    assert_eq!(state.insert_seq(), 16);
    assert_eq!(state.erase_seq(), 0);
    assert_eq!(state.find_seq(), 0);
}

#[test]
fn insert_into_a_full_state_fails_and_changes_nothing() {
    let mut state = KeySequenceState::new(8, 8).unwrap();
    assert_eq!(state.step(Operation::Insert), Err(Exhausted));
    assert_eq!(state.insert_seq(), 8);
    assert_eq!(state.erase_seq(), 0);
    assert_eq!(state.find_seq(), 0);
    assert!(state.step(Operation::Remove).is_ok());
    assert_eq!(state.step(Operation::Insert), Err(Exhausted));
}

#[test]
fn eight_removes_after_prefill_of_eight() {
    let mut state = KeySequenceState::new(16, 8).unwrap();
    for index in 0..8 {
        let probe = state.step(Operation::Remove).unwrap().unwrap();
        assert_eq!(probe, Probe { opcode: 3, index, expected: true });
    }
    assert_eq!(state.erase_seq(), 8);
    assert_eq!(state.erase_seq(), state.insert_seq());
    assert_eq!(state.find_seq(), 0);
}

#[test]
fn read_expects_presence_only_below_insert_seq() {
    let mut state = KeySequenceState::new(16, 4).unwrap();
    // find_seq walks 0, 3, 14, 1, 12
    let expected = [(0, true), (3, true), (14, false), (1, true), (12, false)];
    for (index, present) in expected {
        let probe = state.step(Operation::Read).unwrap().unwrap();
        assert_eq!(probe, Probe { opcode: 1, index, expected: present });
    }
}

#[test]
fn update_is_a_read_with_its_own_opcode() {
    let mut reads = KeySequenceState::new(32, 10).unwrap();
    let mut updates = KeySequenceState::new(32, 10).unwrap();
    for _ in 0..40 {
        let read = reads.step(Operation::Read).unwrap().unwrap();
        let update = updates.step(Operation::Update).unwrap().unwrap();
        assert_eq!(read.opcode, 1);
        assert_eq!(update.opcode, 4);
        assert_eq!(read.index, update.index);
        assert_eq!(read.expected, update.expected);
        assert_eq!(reads.find_seq(), updates.find_seq());
    }
}

#[test]
fn read_of_a_removed_index_sends_nothing_but_turns_the_generator() {
    let mut state = KeySequenceState::new(16, 8).unwrap();
    for _ in 0..4 {
        state.step(Operation::Remove).unwrap();
    }
    assert_eq!(state.erase_seq(), 4);
    // find_seq 0 and 3 lie below erase_seq 4
    assert_eq!(state.step(Operation::Read), Ok(None));
    assert_eq!(state.find_seq(), 3);
    assert_eq!(state.step(Operation::Update), Ok(None));
    assert_eq!(state.find_seq(), 14);
    assert_eq!(
        state.step(Operation::Read),
        Ok(Some(Probe { opcode: 1, index: 14, expected: false }))
    );
    assert_eq!(state.find_seq(), 1);
    assert_eq!(state.step(Operation::Read), Ok(None));
    assert_eq!(state.find_seq(), 12);
}

#[test]
fn read_at_erase_seq_is_sent() {
    let mut state = KeySequenceState::new(16, 8).unwrap();
    for _ in 0..3 {
        state.step(Operation::Remove).unwrap();
    }
    state.step(Operation::Read).unwrap();
    assert_eq!(state.find_seq(), 3);
    assert_eq!(state.erase_seq(), 3);
    assert_eq!(
        state.step(Operation::Read),
        Ok(Some(Probe { opcode: 1, index: 3, expected: true }))
    );
}

#[test]
fn upsert_sends_nothing_and_changes_nothing() {
    let mut state = KeySequenceState::new(16, 5).unwrap();
    state.step(Operation::Read).unwrap();
    state.step(Operation::Remove).unwrap();
    let before = (state.insert_seq(), state.erase_seq(), state.find_seq());
    assert_eq!(state.step(Operation::Upsert), Ok(None));
    assert_eq!((state.insert_seq(), state.erase_seq(), state.find_seq()), before);
}

#[test]
fn generator_constants_follow_the_number_of_keys() {
    let state = KeySequenceState::new(16, 0).unwrap();
    assert_eq!((state.multiplier(), state.increment(), state.mask()), (9, 3, 15));
    let state = KeySequenceState::new(8, 0).unwrap();
    assert_eq!((state.multiplier(), state.increment(), state.mask()), (5, 1, 7));
    let state = KeySequenceState::new(1 << 20, 0).unwrap();
    assert_eq!(
        (state.multiplier(), state.increment(), state.mask()),
        ((1 << 19) + 1, (1 << 18) - 1, (1 << 20) - 1)
    );
}

#[test]
fn find_seq_walk_of_sixteen_keys() {
    let mut state = KeySequenceState::new(16, 0).unwrap();
    let mut walk = vec![state.find_seq()];
    for _ in 0..16 {
        state.step(Operation::Read).unwrap();
        walk.push(state.find_seq());
    }
    assert_eq!(walk, vec![0, 3, 14, 1, 12, 15, 10, 13, 8, 11, 6, 9, 4, 7, 2, 5, 0]);
}

#[test]
fn find_seq_walk_of_eight_keys() {
    let mut state = KeySequenceState::new(8, 0).unwrap();
    let mut walk = Vec::new();
    for _ in 0..8 {
        state.step(Operation::Update).unwrap();
        walk.push(state.find_seq());
    }
    assert_eq!(walk, vec![1, 6, 7, 4, 5, 2, 3, 0]);
}

#[test]
fn no_two_turns_in_a_row_look_at_the_same_index() {
    for nkeys in [8usize, 16, 64, 4096] {
        let mut state = KeySequenceState::new(nkeys, 0).unwrap();
        let mut seen = vec![false; nkeys];
        for _ in 0..nkeys {
            let before = state.find_seq();
            assert!(!seen[before]);
            seen[before] = true;
            state.step(Operation::Read).unwrap();
            assert_ne!(state.find_seq(), before);
        }
        assert_eq!(state.find_seq(), 0);
    }
}

#[test]
fn find_seq_walk_is_the_same_in_every_run() {
    let mut first = KeySequenceState::new(1024, 0).unwrap();
    let mut second = KeySequenceState::new(1024, 1000).unwrap();
    for turn in 0..5000 {
        // The runs differ in everything but the number of keys and of turns.
        first.step(Operation::Read).unwrap();
        if turn % 3 == 0 {
            second.step(Operation::Upsert).unwrap();
        }
        second.step(Operation::Update).unwrap();
        assert_eq!(first.find_seq(), second.find_seq());
    }
}

#[test]
fn find_seq_follows_the_formula() {
    for log2 in [3u32, 4, 7, 20, 31] {
        let nkeys: usize = 1 << log2;
        let a = (nkeys / 2 + 1) as u128;
        let c = (nkeys / 4 - 1) as u128;
        let mask = (nkeys - 1) as u128;
        let mut state = KeySequenceState::new(nkeys, 0).unwrap();
        let mut x: u128 = 0;
        for _ in 0..200 {
            state.step(Operation::Read).unwrap();
            x = (a * x + c) & mask;
            assert_eq!(state.find_seq() as u128, x);
        }
    }
}

#[test]
fn find_seq_is_exact_where_the_product_leaves_the_word() {
    let nkeys: usize = 1 << (usize::BITS - 1);
    let a = (nkeys / 2 + 1) as u128;
    let c = (nkeys / 4 - 1) as u128;
    let mut state = KeySequenceState::new(nkeys, 0).unwrap();
    let mut x: u128 = 0;
    for _ in 0..100 {
        state.step(Operation::Read).unwrap();
        x = (a * x + c) % (nkeys as u128);
        assert_eq!(state.find_seq() as u128, x);
    }
}

#[test]
fn invariant_holds_at_every_point_of_a_long_run() {
    let tags = [
        Operation::Insert,
        Operation::Read,
        Operation::Remove,
        Operation::Remove,
        Operation::Update,
        Operation::Upsert,
        Operation::Insert,
        Operation::Insert,
        Operation::Remove,
        Operation::Read,
    ];
    let mut state = KeySequenceState::new(64, 7).unwrap();
    assert!(invariant_holds(&state));
    let mut pick: usize = 1;
    for _ in 0..10_000 {
        pick = (pick * 7 + 3) % 10;
        let _ = state.step(tags[pick]);
        assert!(invariant_holds(&state));
        assert_eq!(state.nkeys(), 64);
    }
}

#[test]
fn new_starts_at_the_prefilled_count() {
    let state = KeySequenceState::new(32, 9).unwrap();
    assert_eq!(state.nkeys(), 32);
    assert_eq!(state.insert_seq(), 9);
    assert_eq!(state.erase_seq(), 0);
    assert_eq!(state.find_seq(), 0);
    let full = KeySequenceState::new(8, 8).unwrap();
    assert_eq!(full.insert_seq(), 8);
}

#[test]
fn new_refuses_key_counts_that_are_no_power_of_two_above_four() {
    for nkeys in [0usize, 1, 2, 3, 4, 5, 6, 7, 12, 100, usize::MAX] {
        assert_eq!(KeySequenceState::new(nkeys, 0).unwrap_err(), ConfigError::KeyCount);
    }
    assert!(KeySequenceState::new(8, 0).is_ok());
}

#[test]
fn new_refuses_more_prefilled_keys_than_keys() {
    assert_eq!(KeySequenceState::new(8, 9).unwrap_err(), ConfigError::KeysExhausted);
    assert_eq!(KeySequenceState::new(16, usize::MAX).unwrap_err(), ConfigError::KeysExhausted);
    // The key count is judged first.
    assert_eq!(KeySequenceState::new(12, 13).unwrap_err(), ConfigError::KeyCount);
}

#[test]
fn opcodes_of_the_tags() {
    assert_eq!(Operation::Read.opcode(), Some(1));
    assert_eq!(Operation::Insert.opcode(), Some(2));
    assert_eq!(Operation::Remove.opcode(), Some(3));
    assert_eq!(Operation::Update.opcode(), Some(4));
    assert_eq!(Operation::Upsert.opcode(), None);
}

#[test]
fn tags_of_the_opcodes() {
    assert_eq!(Operation::from_opcode(0), None);
    assert_eq!(Operation::from_opcode(1), Some(Operation::Read));
    assert_eq!(Operation::from_opcode(2), Some(Operation::Insert));
    assert_eq!(Operation::from_opcode(3), Some(Operation::Remove));
    assert_eq!(Operation::from_opcode(4), Some(Operation::Update));
    for opcode in 5..=255u8 {
        assert_eq!(Operation::from_opcode(opcode), None);
    }
}
