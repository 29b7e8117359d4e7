//! The wire codec: fixed-size request frames, status responses and the
//! registration line.
//!
//! A request frame holds `ops_st` records of nine bytes: one opcode byte and
//! the key, most significant byte first. Slots that carry no operation are
//! zero. A frame of zeros alone closes the phase on its connection.

use crate::operation::OPCODE_IDLE;
use vstd::prelude::*;

verus! {

/// Bytes of one record of a request frame.
pub const RECORD_BYTES: usize = 9;

/// One operation as it travels: opcode and key.
#[derive(Clone, Copy, Debug, PartialEq, Eq, Structural)]
pub struct Record {
    pub opcode: u8,
    pub key: u64,
}

/// The record of a slot that carries no operation.
pub open spec fn idle_record() -> Record {
    Record { opcode: OPCODE_IDLE, key: 0 }
}

/// Byte `at` of a key in big-endian order: byte 0 is the most significant.
pub open spec fn key_byte(key: u64, at: int) -> u8 {
    ((key >> (((7 - at) * 8) as u64)) & 0xff) as u8
}

/// The eight bytes of a key, most significant first.
pub open spec fn key_bytes(key: u64) -> Seq<u8> {
    Seq::new(8, |at: int| key_byte(key, at))
}

/// The key that eight bytes spell, most significant first.
pub open spec fn key_of_bytes(bytes: Seq<u8>) -> u64 {
    (bytes[0] as u64) << 56 | (bytes[1] as u64) << 48 | (bytes[2] as u64) << 40 | (bytes[3] as u64)
        << 32 | (bytes[4] as u64) << 24 | (bytes[5] as u64) << 16 | (bytes[6] as u64) << 8 | (
    bytes[7] as u64)
}

/// Byte `at` of the frame of `records`: the records in order, nine bytes each,
/// then zeros.
pub open spec fn frame_byte(records: Seq<Record>, at: int) -> u8 {
    let slot = at / 9;
    let offset = at % 9;
    if slot < records.len() {
        if offset == 0 {
            records[slot].opcode
        } else {
            key_byte(records[slot].key, offset - 1)
        }
    } else {
        0
    }
}

/// The request frame of `ops_st` slots that carries `records`.
pub open spec fn frame_of(ops_st: nat, records: Seq<Record>) -> Seq<u8> {
    Seq::new(9 * ops_st, |at: int| frame_byte(records, at))
}

/// The records that a request frame holds, one per slot, idle slots included.
pub open spec fn records_of(frame: Seq<u8>) -> Seq<Record> {
    Seq::new(
        (frame.len() / 9) as nat,
        |slot: int|
            Record {
                opcode: frame[9 * slot],
                key: key_of_bytes(frame.subrange(9 * slot + 1, 9 * slot + 9)),
            },
    )
}

/// The outcomes that a response reports, one per status byte: zero is success.
pub open spec fn outcomes_of(response: Seq<u8>) -> Seq<bool> {
    Seq::new(response.len(), |slot: int| response[slot] == 0)
}

/// The decimal digits of `n` in ASCII, without leading zeros.
pub open spec fn decimal(n: nat) -> Seq<u8>
    decreases n,
{
    if n < 10 {
        seq![(48 + n) as u8]
    } else {
        decimal(n / 10).push((48 + n % 10) as u8)
    }
}

/// The registration line: the four numbers in decimal, separated by one
/// space each and closed by a line feed.
pub open spec fn registration_of(delegation_no: nat, capacity: nat, threads: nat, ops_st: nat) -> Seq<
    u8,
> {
    decimal(delegation_no) + seq![32u8] + decimal(capacity) + seq![32u8] + decimal(threads)
        + seq![32u8] + decimal(ops_st) + seq![10u8]
}

/// The eight bytes of a key spell that key.
pub proof fn lemma_key_round_trip(key: u64)
    ensures
        key_bytes(key).len() == 8,
        key_of_bytes(key_bytes(key)) == key,
{
    assert(((((key >> 56) & 0xff) as u8) as u64) << 56 | ((((key >> 48) & 0xff) as u8) as u64)
        << 48 | ((((key >> 40) & 0xff) as u8) as u64) << 40 | ((((key >> 32) & 0xff) as u8) as u64)
        << 32 | ((((key >> 24) & 0xff) as u8) as u64) << 24 | ((((key >> 16) & 0xff) as u8) as u64)
        << 16 | ((((key >> 8) & 0xff) as u8) as u64) << 8 | ((((key >> 0) & 0xff) as u8) as u64)
        == key) by (bit_vector);
}

/// Decoding a frame gives back what was encoded, in order, and reads every
/// slot behind the last record as idle.
pub proof fn lemma_frame_round_trip(ops_st: nat, records: Seq<Record>)
    requires
        records.len() <= ops_st,
    ensures
        frame_of(ops_st, records).len() == 9 * ops_st,
        records_of(frame_of(ops_st, records)).len() == ops_st,
        records_of(frame_of(ops_st, records)) == records + Seq::new(
            (ops_st - records.len()) as nat,
            |slot: int| idle_record(),
        ),
{
    let frame = frame_of(ops_st, records);
    let back = records_of(frame);
    let padded = records + Seq::new((ops_st - records.len()) as nat, |slot: int| idle_record());
    assert forall|slot: int| 0 <= slot < ops_st implies back[slot] == padded[slot] by {
        let bytes = frame.subrange(9 * slot + 1, 9 * slot + 9);
        if slot < records.len() {
            let key = records[slot].key;
            assert(bytes =~= key_bytes(key));
            lemma_key_round_trip(key);
        } else {
            assert(forall|at: int| 0 <= at < 8 ==> bytes[at] == 0);
            assert(0u64 << 56 | 0u64 << 48 | 0u64 << 40 | 0u64 << 32 | 0u64 << 24 | 0u64 << 16
                | 0u64 << 8 | 0u64 == 0u64) by (bit_vector);
        }
    }
}

/// Writes the eight bytes of `key` into `frame` from `start` on, most
/// significant first.
fn put_key(frame: &mut Vec<u8>, start: usize, key: u64)
    requires
        start + 8 <= old(frame).len(),
    ensures
        final(frame).len() == old(frame).len(),
        forall|at: int|
            0 <= at < old(frame).len() ==> #[trigger] final(frame)[at] == (if start <= at < start
                + 8 {
                key_byte(key, at - start)
            } else {
                old(frame)[at]
            }),
{
    let mut done: usize = 0;
    while done < 8
        invariant
            done <= 8,
            start + 8 <= frame.len(),
            frame.len() == old(frame).len(),
            forall|at: int|
                0 <= at < frame.len() ==> #[trigger] frame[at] == (if start <= at < start + done {
                    key_byte(key, at - start)
                } else {
                    old(frame)[at]
                }),
        decreases 8 - done,
    {
        let shift: u64 = ((7 - done) * 8) as u64;
        let byte: u8 = ((key >> shift) & 0xff) as u8;
        frame.set(start + done, byte);
        done = done + 1;
    }
}

/// Encodes `records` into a request frame of `ops_st` slots.
///
/// Returns `None` when the records do not fit the frame or the frame's length
/// does not fit the machine word.
pub fn encode_frame(ops_st: usize, records: &Vec<Record>) -> (encoded: Option<Vec<u8>>)
    ensures
        encoded is Some <==> records.len() <= ops_st && 9 * ops_st <= usize::MAX,
        encoded matches Some(frame) ==> frame@ == frame_of(ops_st as nat, records@),
{
    if records.len() > ops_st || ops_st > usize::MAX / RECORD_BYTES {
        return None;
    }
    let length: usize = RECORD_BYTES * ops_st;
    let mut frame: Vec<u8> = vec![0u8; length];
    let mut slot: usize = 0;
    while slot < records.len()
        invariant
            slot <= records.len() <= ops_st,
            9 * ops_st <= usize::MAX,
            frame@ == frame_of(ops_st as nat, records@.take(slot as int)),
        decreases records.len() - slot,
    {
        let record: Record = records[slot];
        let start: usize = RECORD_BYTES * slot;
        frame.set(start, record.opcode);
        put_key(&mut frame, start + 1, record.key);
        slot = slot + 1;
    }
    Some(frame)
}

/// The frame that closes a phase: `ops_st` idle slots. `None` when its length
/// does not fit the machine word.
pub fn close_frame(ops_st: usize) -> (encoded: Option<Vec<u8>>)
    ensures
        encoded is Some <==> 9 * ops_st <= usize::MAX,
        encoded matches Some(frame) ==> {
            &&& frame@ == frame_of(ops_st as nat, Seq::<Record>::empty())
            &&& frame@ == Seq::new(9 * ops_st as nat, |at: int| 0u8)
        },
{
    let none: Vec<Record> = Vec::new();
    encode_frame(ops_st, &none)
}

/// Decodes a request frame into its records, one per whole slot; idle slots
/// come out as records with opcode 0.
pub fn decode_frame(frame: &Vec<u8>) -> (records: Vec<Record>)
    ensures
        records@ == records_of(frame@),
{
    let slots: usize = frame.len() / RECORD_BYTES;
    let mut records: Vec<Record> = Vec::new();
    let mut slot: usize = 0;
    while slot < slots
        invariant
            slot <= slots,
            slots == frame.len() / 9,
            records@ == records_of(frame@).take(slot as int),
        decreases slots - slot,
    {
        let start: usize = RECORD_BYTES * slot;
        let key: u64 = (frame[start + 1] as u64) << 56 | (frame[start + 2] as u64) << 48 | (
        frame[start + 3] as u64) << 40 | (frame[start + 4] as u64) << 32 | (frame[start
            + 5] as u64) << 24 | (frame[start + 6] as u64) << 16 | (frame[start + 7] as u64) << 8
            | (frame[start + 8] as u64);
        records.push(Record { opcode: frame[start], key });
        slot = slot + 1;
    }
    records
}

/// Decodes a response: one outcome per status byte, `true` for a zero byte.
pub fn decode_response(response: &Vec<u8>) -> (outcomes: Vec<bool>)
    ensures
        outcomes@ == outcomes_of(response@),
{
    let mut outcomes: Vec<bool> = Vec::new();
    let mut slot: usize = 0;
    while slot < response.len()
        invariant
            slot <= response.len(),
            outcomes@ == outcomes_of(response@).take(slot as int),
        decreases response.len() - slot,
    {
        outcomes.push(response[slot] == 0);
        slot = slot + 1;
    }
    outcomes
}

/// Appends the decimal digits of `n`.
fn push_decimal(line: &mut Vec<u8>, n: usize)
    ensures
        final(line)@ == old(line)@ + decimal(n as nat),
{
    let mut low: Vec<u8> = Vec::new();
    let mut rest: usize = n;
    while rest >= 10
        invariant
            decimal(n as nat) == decimal(rest as nat) + low@.reverse(),
        decreases rest,
    {
        let digit: u8 = 48 + (rest % 10) as u8;
        low.push(digit);
        rest = rest / 10;
    }
    line.push(48 + rest as u8);
    let mut left: usize = low.len();
    while left > 0
        invariant
            left <= low.len(),
            line@ == old(line)@ + decimal(rest as nat) + low@.reverse().take(low.len() - left),
        decreases left,
    {
        left = left - 1;
        line.push(low[left]);
    }
}

/// Writes the line that registers a run with the server.
pub fn registration_line(delegation_no: u8, capacity: usize, threads: usize, ops_st: usize) -> (line:
    Vec<u8>)
    ensures
        line@ == registration_of(
            delegation_no as nat,
            capacity as nat,
            threads as nat,
            ops_st as nat,
        ),
{
    let mut line: Vec<u8> = Vec::new();
    push_decimal(&mut line, delegation_no as usize);
    line.push(32);
    push_decimal(&mut line, capacity);
    line.push(32);
    push_decimal(&mut line, threads);
    line.push(32);
    push_decimal(&mut line, ops_st);
    line.push(10);
    line
}

} // verus!
