//! A verified model of a minimal ledger-hosted counter program.
//!
//! The program keeps a single shared `Counter` record with an unsigned
//! 64-bit `value`. Two variants of the same design are provided:
//! an addressed-storage variant, where the record lives at an address
//! derived deterministically from a fixed label and the hosting program's
//! identity, and a free-storage variant, where the creator picks the
//! address. Both expose `initialize` (create the record with value zero)
//! and `increment` (add one to it).

use vstd::prelude::*;

pub mod address;
pub mod addressed;
pub mod free;
pub mod laws;
pub mod ledger;
pub mod pda;

verus! {

/// The failures an invocation can end in. Every failure is fatal to the
/// invocation: the ledger is left exactly as it was.
#[derive(Clone, Copy, Debug, PartialEq, Eq, Structural)]
pub enum CounterError {
    /// `initialize` found a record already allocated at the target address.
    AlreadyInUse,
    /// `increment` found no record at the target address.
    AccountNotFound,
    /// The presented address does not match the derived address
    /// (addressed-storage variant only).
    AddressMismatch,
    /// A record at the target address is not owned by the hosting program.
    WrongOwner,
    /// A required transaction signature is missing.
    MissingSignature,
    /// No valid derived address exists for the label (every nonce failed
    /// the validity search).
    DerivationFailed,
    /// The counter stands at the 64-bit boundary; the policy here is to
    /// fail fast rather than wrap.
    ValueOverflow,
}

/// The counter record: the sole entity the program stores.
#[derive(Clone, Copy, Debug, PartialEq, Eq, Structural)]
pub struct Counter {
    pub value: u64,
}

/// The record's fixed storage footprint in the host's account encoding:
/// an 8-byte discriminator tag followed by the 8-byte value. The record
/// is never resized.
pub const RECORD_SPACE: u64 = 8 + 8;

/// The successor of a counter value. The 64-bit boundary is handled by
/// failing fast: at `u64::MAX` the increment is rejected outright.
pub fn incremented(value: u64) -> (r: Result<u64, CounterError>)
    ensures
        value < u64::MAX ==> r == Ok::<u64, CounterError>((value + 1) as u64),
        value == u64::MAX ==> r == Err::<u64, CounterError>(CounterError::ValueOverflow),
{
    if value < u64::MAX {
        Ok(value + 1)
    } else {
        Err(CounterError::ValueOverflow)
    }
}

} // verus!
