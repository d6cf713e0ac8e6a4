//! The layout of the shared `DBWIN_BUFFER` record: the writer's process id as a
//! little-endian `u32`, then the ANSI text of the message, NUL-terminated.
//! Creating the kernel objects and waiting on them is the program's part.

use vstd::prelude::*;

use super::decode::{decode_utf8_message, decoded_message};

verus! {

/// Size of the shared `DBWIN_BUFFER` (fixed at 4 KiB).
pub const BUFFER_SIZE: usize = 4096;

/// The outcome of one wait for a message.
#[derive(Debug, Clone, PartialEq, Eq)]
pub enum Poll {
    /// A message was read: (process id, decoded text).
    Message(u32, String),
    /// No message came within the timeout.
    Timeout,
}

/// The little-endian `u32` held by the first four bytes of `b`.
pub open spec fn le_u32(b: Seq<u8>) -> int {
    b[0] + 256 * b[1] + 65536 * b[2] + 16777216 * b[3]
}

/// The process id at the head of a record: its first four bytes, little-endian.
pub fn record_pid(data: &[u8]) -> (pid: u32)
    requires
        data@.len() >= 4,
    ensures
        pid == le_u32(data@),
{
    let b0 = data[0] as u32;
    let b1 = data[1] as u32;
    let b2 = data[2] as u32;
    let b3 = data[3] as u32;
    b0 + 256 * b1 + 65536 * b2 + 16777216 * b3
}

/// Reads a record of the shared buffer: the process id from its first four
/// bytes, the text from the rest, decoded as UTF-8 (the reading of platforms
/// other than Windows).
pub fn read_record(data: &[u8]) -> (p: Poll)
    requires
        data@.len() >= 4,
    ensures
        p matches Poll::Message(pid, text) && pid == le_u32(data@) && text@ == decoded_message(
            data@.skip(4),
        ),
{
    let pid = record_pid(data);
    let (_, rest) = data.split_at(4);
    assert(rest@ =~= data@.skip(4));
    let text = decode_utf8_message(rest);
    Poll::Message(pid, text)
}

} // verus!
