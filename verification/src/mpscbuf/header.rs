//! Record headers: a record's length in the low half of a 64-bit word, its state in the high half.

use vstd::prelude::*;

verus! {

/// Set in the high half while the producer still fills the record in.
pub const BUSY_FLAG: u32 = 0x8000_0000;

/// Set in the high half where the producer gave the record up.
pub const DISCARD_FLAG: u32 = 0x4000_0000;

/// Bytes that a header takes in front of a record's data.
pub const HEADER_SIZE: usize = 8;

/// The word of a record of length `len` with the flags `flags`.
pub open spec fn header_word(len: u32, flags: u32) -> u64 {
    (len as u64) | ((flags as u64) << 32)
}

/// The length that a header word holds.
pub open spec fn word_len(word: u64) -> u32 {
    word as u32
}

/// The flags that a header word holds.
pub open spec fn word_flags(word: u64) -> u32 {
    (word >> 32) as u32
}

/// A header word gives back the length and the flags that it was made of.
pub proof fn header_word_round_trip(len: u32, flags: u32)
    ensures
        word_len(header_word(len, flags)) == len,
        word_flags(header_word(len, flags)) == flags,
{
    assert(((len as u64) | ((flags as u64) << 32)) as u32 == len) by (bit_vector);
    assert(((((len as u64) | ((flags as u64) << 32)) >> 32) as u32) == flags) by (bit_vector);
}

/// A header word is made of its length and its flags, and of nothing else.
pub proof fn header_word_complete(word: u64)
    ensures
        header_word(word_len(word), word_flags(word)) == word,
{
    assert(((word as u32) as u64) | ((((word >> 32) as u32) as u64) << 32) == word) by (bit_vector);
}

/// The header in front of a record.
pub struct RecordHeader {
    header: u64,
}

impl View for RecordHeader {
    type V = u64;

    closed spec fn view(&self) -> u64 {
        self.header
    }
}

impl RecordHeader {
    /// The header of a record of length `len` that is being filled in.
    pub fn new(len: u32) -> (h: RecordHeader)
        ensures
            h@ == header_word(len, BUSY_FLAG),
    {
        RecordHeader { header: (len as u64) | ((BUSY_FLAG as u64) << 32) }
    }

    /// The header that `word` encodes.
    pub fn from_word(word: u64) -> (h: RecordHeader)
        ensures
            h@ == word,
    {
        RecordHeader { header: word }
    }

    /// The word that encodes this header.
    pub fn word(&self) -> (word: u64)
        ensures
            word == self@,
    {
        self.header
    }

    /// Gives the record up: the length stays, the only flag left is `DISCARD_FLAG`.
    pub fn discard(&mut self)
        ensures
            final(self)@ == header_word(word_len(old(self)@), DISCARD_FLAG),
    {
        let len: u32 = self.header as u32;
        self.header = (len as u64) | ((DISCARD_FLAG as u64) << 32);
    }

    /// Hands the record over: the length stays, no flag is left.
    pub fn commit(&mut self)
        ensures
            final(self)@ == header_word(word_len(old(self)@), 0),
    {
        let len: u32 = self.header as u32;
        assert((len as u64) | ((0u32 as u64) << 32) == len as u64) by (bit_vector);
        self.header = len as u64;
    }

    /// Whether the producer gave the record up.
    pub fn is_discarded(&self) -> (discarded: bool)
        ensures
            discarded == (word_flags(self@) & DISCARD_FLAG != 0),
    {
        let flags: u32 = (self.header >> 32) as u32;
        flags & DISCARD_FLAG != 0
    }

    /// The record's length and its flags.
    pub fn len_and_flags(&self) -> (r: (u32, u32))
        ensures
            r.0 == word_len(self@),
            r.1 == word_flags(self@),
    {
        (self.header as u32, (self.header >> 32) as u32)
    }

    /// Starts the record over, as one of length `len` that is being filled in.
    pub fn write_initial(&mut self, len: u32)
        ensures
            final(self)@ == header_word(len, BUSY_FLAG),
    {
        self.header = (len as u64) | ((BUSY_FLAG as u64) << 32);
    }
}

/// `len` rounded up to a multiple of eight.
pub open spec fn rounded_up_to_8(len: int) -> int {
    (len + 7) / 8 * 8
}

/// Rounds `len` up to a multiple of eight.
pub fn round_up_to_8(len: usize) -> (r: usize)
    requires
        len <= usize::MAX - 7,
    ensures
        r == rounded_up_to_8(len as int),
        r % 8 == 0,
        len <= r < len + 8,
{
    let whole: usize = len / 8;
    if len % 8 == 0 {
        whole * 8
    } else {
        (whole + 1) * 8
    }
}

} // verus!
