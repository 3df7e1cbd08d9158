pub mod digest;
pub mod output_event;

use vstd::prelude::*;

verus! {

/// Number of bytes in the fixed-size digest backing an event identity.
pub const EVENT_ID_SIZE_BYTES: usize = 32;

/// Error surfaced by this crate: decoding an event identity from bytes or
/// from its checksummed text form received data that does not form a valid
/// digest.
#[derive(Clone, Copy, Debug, PartialEq, Eq, Structural)]
pub enum ModelsError {
    HashError,
}

/// Logical time unit of the execution timeline: a period and a thread index.
#[derive(Clone, Copy, Debug, PartialEq, Eq, Structural)]
pub struct Slot {
    pub period: u64,
    pub thread: u8,
}

/// Identifier of a block, backed by a digest.
#[derive(Clone, Copy, Debug, PartialEq, Eq)]
pub struct BlockId(pub digest::Digest);

/// Address of a contract, backed by a digest.
#[derive(Clone, Copy, Debug, PartialEq, Eq)]
pub struct Address(pub digest::Digest);

} // verus!
