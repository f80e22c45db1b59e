//! The decisions of the ring buffer protocol, from positions and header words alone.
//!
//! Whoever owns the shared memory performs the loads and stores; these functions say what they
//! mean and what comes next.

use crate::mpscbuf::error::MpscBufError;
use crate::mpscbuf::header;
use crate::mpscbuf::header::{round_up_to_8, RecordHeader, BUSY_FLAG, DISCARD_FLAG, HEADER_SIZE};
use vstd::prelude::*;

verus! {

/// Bytes that a record of `size` bytes takes in the stream, its header and padding with it.
pub open spec fn span(size: int) -> int {
    header::rounded_up_to_8(size + HEADER_SIZE)
}

/// What a producer does once there is room for its record.
pub struct ReservePlan {
    /// Place of the header in the data region.
    pub offset: u64,
    /// The header word to store there.
    pub header: u64,
    /// The producer position to store after that.
    pub new_producer: u64,
}

/// Decides whether a record of `size` bytes fits behind `producer_pos`. `mask` is the size of
/// the data region less one: one byte of the region always stays free.
pub fn plan_reserve(
    producer_pos: u64,
    consumer_pos: u64,
    mask: u64,
    size: usize,
) -> (r: Result<ReservePlan, MpscBufError>)
    requires
        consumer_pos <= producer_pos,
        size + HEADER_SIZE + 7 <= usize::MAX,
        producer_pos + span(size as int) <= u64::MAX,
        mask < u64::MAX,
    ensures
        r is Ok <==> producer_pos + span(size as int) - consumer_pos <= mask,
        r matches Ok(plan) ==> {
            &&& plan.offset == producer_pos & mask
            &&& plan.header == header::header_word(size as u32, BUSY_FLAG)
            &&& plan.new_producer == producer_pos + span(size as int)
        },
        r matches Err(e) ==> e == MpscBufError::InsufficientSpace(
            (producer_pos + span(size as int)) as u64,
            consumer_pos,
            (mask + 1) as u64,
        ),
{
    let total: usize = round_up_to_8(size + HEADER_SIZE);
    let new_producer: u64 = producer_pos + total as u64;
    if new_producer - consumer_pos > mask {
        return Err(MpscBufError::InsufficientSpace(new_producer, consumer_pos, mask + 1));
    }
    let header = RecordHeader::new(size as u32);
    Ok(ReservePlan { offset: producer_pos & mask, header: header.word(), new_producer })
}

/// Place in the data region of the header that the consumer reads next, where there is one.
pub fn next_header(consumer_pos: u64, producer_pos: u64, mask: u64) -> (r: Option<u64>)
    ensures
        r == if consumer_pos >= producer_pos {
            None
        } else {
            Some(consumer_pos & mask)
        },
{
    if consumer_pos >= producer_pos {
        None
    } else {
        Some(consumer_pos & mask)
    }
}

/// What the consumer does with the record in front of it.
pub enum ConsumeStep {
    /// The record is still being filled in: stop here.
    Wait,
    /// The record was given up: move to the position.
    Skip(u64),
    /// The record holds so many bytes; its reader moves to the position when done with it.
    Deliver(u32, u64),
}

/// Decides what to do with the record at `consumer_pos` whose header is `word`.
pub fn consume_step(consumer_pos: u64, word: u64) -> (step: ConsumeStep)
    requires
        consumer_pos + span(header::word_len(word) as int) <= u64::MAX,
    ensures
        step == if header::word_flags(word) & BUSY_FLAG != 0 {
            ConsumeStep::Wait
        } else if header::word_flags(word) & DISCARD_FLAG == 0 {
            ConsumeStep::Deliver(
                header::word_len(word),
                (consumer_pos + span(header::word_len(word) as int)) as u64,
            )
        } else {
            ConsumeStep::Skip((consumer_pos + span(header::word_len(word) as int)) as u64)
        },
{
    let (len, flags) = RecordHeader::from_word(word).len_and_flags();
    if flags & BUSY_FLAG != 0 {
        return ConsumeStep::Wait;
    }
    let total: u64 = (len as u64 + 15) / 8 * 8;
    if flags & DISCARD_FLAG == 0 {
        ConsumeStep::Deliver(len, consumer_pos + total)
    } else {
        ConsumeStep::Skip(consumer_pos + total)
    }
}

/// When a producer wakes the consumer up after a record is finished.
#[derive(Debug, Clone, Copy, PartialEq, Eq, Structural)]
pub enum WakeupStrategy {
    /// Only if the consumer stands at that very record.
    SelfPacing,
    /// Always.
    Forced,
    /// Never.
    NoWakeup,
}

/// Decides whether to wake the consumer up once the record at `record_offset` of the data
/// region is finished.
pub fn wakes_consumer(
    strategy: WakeupStrategy,
    consumer_pos: u64,
    mask: u64,
    record_offset: u64,
) -> (wake: bool)
    ensures
        wake == match strategy {
            WakeupStrategy::Forced => true,
            WakeupStrategy::SelfPacing => consumer_pos & mask == record_offset,
            WakeupStrategy::NoWakeup => false,
        },
{
    match strategy {
        WakeupStrategy::Forced => true,
        WakeupStrategy::SelfPacing => consumer_pos & mask == record_offset,
        WakeupStrategy::NoWakeup => false,
    }
}

} // verus!
