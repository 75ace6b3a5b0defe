//! The payload that users of the runtime define.

use vstd::prelude::*;

verus! {

/// A user-defined message that can cross the wire as bytes.
pub trait UserMsg: Sized {
    /// The bytes that stand for the message.
    fn to_bytes(&self) -> Vec<u8>;

    /// The message that the bytes stand for.
    fn from_bytes(bytes: Vec<u8>) -> Self;
}

} // verus!
