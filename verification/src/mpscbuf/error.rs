//! What can go wrong with a ring buffer.

use crate::text::push_decimal;
use vstd::prelude::*;
use vstd::string::*;

verus! {

/// The number of an operating system error: an argument is not valid.
pub const EINVAL: i32 = 22;

/// Failures of the ring buffer. Operating system errors are carried by their number, the errors
/// of the notification channel by their text.
pub enum MpscBufError {
    SizeTooSmall(usize),
    SizeNotAligned(usize),
    MmapFailed(i32),
    MprotectFailed(i32),
    InsufficientSpace(u64, u64, u64),
    InvalidRecordSize(usize),
    EventfdCreation(String),
    EventfdWrite(String),
    EventfdRead(String),
    IoError(String),
}

impl MpscBufError {
    /// What `message` says, `errno_text` being the text of the operating system error where the
    /// failure carries one.
    pub open spec fn message_spec(self, errno_text: Seq<char>) -> Seq<char> {
        match self {
            MpscBufError::SizeTooSmall(n) => "size must be at least twice the page size ("@
                + crate::text::decimal(n as nat) + " bytes)"@,
            MpscBufError::SizeNotAligned(n) => "size must be a multiple of page size ("@
                + crate::text::decimal(n as nat) + " bytes)"@,
            MpscBufError::MmapFailed(_) => "memory mapping failed: "@ + errno_text,
            MpscBufError::MprotectFailed(_) => "memory protection failed: "@ + errno_text,
            MpscBufError::InsufficientSpace(p, c, m) =>
                "insufficient space in ring buffer. producer position: "@ + crate::text::decimal(
                    p as nat,
                ) + ", consumer position: "@ + crate::text::decimal(c as nat) + ", data size: "@
                    + crate::text::decimal(m as nat),
            MpscBufError::InvalidRecordSize(n) => "invalid record size: "@ + crate::text::decimal(
                n as nat,
            ),
            MpscBufError::EventfdCreation(t) => "eventfd creation failed: "@ + t@,
            MpscBufError::EventfdWrite(t) => "eventfd write failed: "@ + t@,
            MpscBufError::EventfdRead(t) => "eventfd read failed: "@ + t@,
            MpscBufError::IoError(t) => "I/O error: "@ + t@,
        }
    }

    /// The failure in words. `errno_text` is the text of the operating system error, used where
    /// the failure carries one.
    pub fn message(&self, errno_text: &str) -> (s: String)
        ensures
            s@ == self.message_spec(errno_text@),
    {
        let mut s = String::new();
        match self {
            MpscBufError::SizeTooSmall(n) => {
                s.append("size must be at least twice the page size (");
                push_decimal(&mut s, *n as u64);
                s.append(" bytes)");
            },
            MpscBufError::SizeNotAligned(n) => {
                s.append("size must be a multiple of page size (");
                push_decimal(&mut s, *n as u64);
                s.append(" bytes)");
            },
            MpscBufError::MmapFailed(_) => {
                s.append("memory mapping failed: ");
                s.append(errno_text);
            },
            MpscBufError::MprotectFailed(_) => {
                s.append("memory protection failed: ");
                s.append(errno_text);
            },
            MpscBufError::InsufficientSpace(p, c, m) => {
                s.append("insufficient space in ring buffer. producer position: ");
                push_decimal(&mut s, *p);
                s.append(", consumer position: ");
                push_decimal(&mut s, *c);
                s.append(", data size: ");
                push_decimal(&mut s, *m);
            },
            MpscBufError::InvalidRecordSize(n) => {
                s.append("invalid record size: ");
                push_decimal(&mut s, *n as u64);
            },
            MpscBufError::EventfdCreation(t) => {
                s.append("eventfd creation failed: ");
                s.append(t.as_str());
            },
            MpscBufError::EventfdWrite(t) => {
                s.append("eventfd write failed: ");
                s.append(t.as_str());
            },
            MpscBufError::EventfdRead(t) => {
                s.append("eventfd read failed: ");
                s.append(t.as_str());
            },
            MpscBufError::IoError(t) => {
                s.append("I/O error: ");
                s.append(t.as_str());
            },
        }
        assert(s@ =~= self.message_spec(errno_text@));
        s
    }
}

} // verus!
