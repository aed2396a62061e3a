//! The trusted boundary: the few outside facts the engine relies on.
//!
//! Everything here is believed, not proved: the transport error type, the
//! test that tells a transient would-block error from a fatal one, the
//! UTF-8 check guarding display names, and the sharing of one payload
//! buffer among many outboxes.

use vstd::prelude::*;
use std::rc::Rc;

verus! {

#[verifier::external_type_specification]
#[verifier::external_body]
pub struct ExIoError(std::io::Error);

/// Relies on `std::io::Error::kind`: true exactly for the would-block
/// kind, the transient "no more data or capacity right now" signal of a
/// non-blocking socket, which is never fatal.
#[verifier::external_body]
pub(crate) fn io_error_would_block(e: &std::io::Error) -> bool {
    e.kind() == std::io::ErrorKind::WouldBlock
}

/// Relies on `core::str::from_utf8`: it succeeds exactly on the byte
/// sequences that `vstd::utf8::valid_utf8` admits.
#[verifier::external_body]
pub fn utf8_ok(b: &[u8]) -> (r: bool)
    ensures
        r == vstd::utf8::valid_utf8(b@),
{
    core::str::from_utf8(b).is_ok()
}

/// Relies on `Rc::clone`: the clone refers to the very same payload
/// buffer as `rc`; nothing is copied and the value is unchanged.
#[verifier::external_body]
pub fn share_payload(rc: &Rc<Vec<u8>>) -> (res: Rc<Vec<u8>>)
    ensures
        res == *rc,
{
    Rc::clone(rc)
}

} // verus!
