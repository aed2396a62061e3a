//! Classification of non-blocking transport outcomes.
//!
//! The engine never touches a socket.  The caller performs one
//! non-blocking read or write and hands the raw `Result` here; the four
//! possible steps drive the buffered-I/O state machines in
//! [`crate::client`].

use vstd::prelude::*;

verus! {

/// Whether `e` only says "try again when the socket is ready" — the one
/// error a non-blocking read or write may return without anything being
/// wrong.  Its answer is the transport's: which kinds count is decided
/// by `std::io::Error::kind` behind [`crate::ext::io_error_would_block`].
pub fn is_would_block(e: &std::io::Error) -> bool {
    crate::ext::io_error_would_block(e)
}

/// What one non-blocking read or write attempt came to.
pub enum IoStep {
    /// The transport moved `0 < n` bytes.
    Got(usize),
    /// A zero-length result: the peer closed, or end of stream.
    Closed,
    /// Would block: nothing now, retry on the next readiness event.
    Block,
    /// A non-recoverable error; it terminates the whole control loop.
    Fail(std::io::Error),
}

/// Sort a raw transport result into its [`IoStep`].
///
/// Which errors count as would-block is the transport's decision, so of
/// an `Err` only this much is promised: it becomes `Block` or it becomes
/// `Fail` carrying that same error — never a byte count, never silence.
pub fn classify_io(r: Result<usize, std::io::Error>) -> (s: IoStep)
    ensures
        match r {
            Ok(n) => if n == 0 {
                s is Closed
            } else {
                s == IoStep::Got(n)
            },
            Err(e) => s is Block || s == IoStep::Fail(e),
        },
{
    match r {
        Ok(0) => IoStep::Closed,
        Ok(n) => IoStep::Got(n),
        Err(e) => if is_would_block(&e) {
            IoStep::Block
        } else {
            IoStep::Fail(e)
        },
    }
}

} // verus!
