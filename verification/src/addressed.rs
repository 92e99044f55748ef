//! The addressed-storage variant: the counter record lives at the
//! address derived from the fixed label and the hosting program's
//! identity.
//!
//! `initialize` derives that address and allocates the record there,
//! funded by an authenticated payer; `increment` recomputes the same
//! address and rejects any presented address that does not match it.
//! Beyond the match, no signer is required to increment: the address is
//! publicly derivable, so authorization is knowledge of it.

use vstd::prelude::*;
use crate::address::Address;
use crate::ledger::Ledger;
use crate::ledger::RecordModel;
use crate::ledger::spec_step_increment;
use crate::ledger::step_increment;
use crate::pda::counter_label;
use crate::pda::spec_derive;
use crate::pda::derive_counter_address;
use crate::CounterError;

verus! {

/// The accounts an addressed-storage `initialize` runs with.
pub struct Initialize {
    /// The identity charged for the allocation.
    pub payer: Address,
    /// Whether the transaction carries the payer's signature.
    pub payer_is_signer: bool,
}

/// The accounts an addressed-storage `increment` runs with.
pub struct Increment {
    /// The record address the caller presents.
    pub counter: Address,
}

/// What `initialize` does to the ledger: with a signing payer, allocate
/// the record at the derived address with value zero; fail if a record
/// already occupies it. `Err` means the ledger is left unchanged.
pub open spec fn spec_initialize(
    m: Map<Seq<u8>, RecordModel>,
    program_id: Seq<u8>,
    payer_is_signer: bool,
) -> Result<Map<Seq<u8>, RecordModel>, CounterError> {
    if !payer_is_signer {
        Err(CounterError::MissingSignature)
    } else {
        match spec_derive(counter_label(), program_id) {
            None => Err(CounterError::DerivationFailed),
            Some(d) => if m.contains_key(d.0) {
                Err(CounterError::AlreadyInUse)
            } else {
                Ok(m.insert(d.0, (RecordModel { owner: program_id, value: 0 })))
            },
        }
    }
}

/// What `increment` does to the ledger: reject a presented address other
/// than the derived one, then apply the shared read-modify-write step at
/// the derived address. `Err` means the ledger is left unchanged.
pub open spec fn spec_increment(
    m: Map<Seq<u8>, RecordModel>,
    program_id: Seq<u8>,
    presented: Seq<u8>,
) -> Result<Map<Seq<u8>, RecordModel>, CounterError> {
    match spec_derive(counter_label(), program_id) {
        None => Err(CounterError::DerivationFailed),
        Some(d) => if presented != d.0 {
            Err(CounterError::AddressMismatch)
        } else {
            spec_step_increment(m, program_id, d.0)
        },
    }
}

/// Create the counter record at the derived address, with value zero,
/// owned by the hosting program and charged to the signing payer.
pub fn initialize(ledger: &mut Ledger, program_id: &Address, accounts: &Initialize) -> (r: Result<
    (),
    CounterError,
>)
    requires
        old(ledger).wf(),
    ensures
        final(ledger).wf(),
        match spec_initialize(old(ledger)@, program_id@, accounts.payer_is_signer) {
            Ok(m) => r is Ok && final(ledger)@ == m,
            Err(e) => r == Err::<(), CounterError>(e) && final(ledger)@ == old(ledger)@,
        },
{
    if !accounts.payer_is_signer {
        return Err(CounterError::MissingSignature);
    }
    match derive_counter_address(program_id) {
        None => Err(CounterError::DerivationFailed),
        Some((addr, _bump)) => ledger.allocate(&addr, program_id),
    }
}

/// Add one to the counter at the derived address, provided the presented
/// address matches it exactly.
pub fn increment(ledger: &mut Ledger, program_id: &Address, accounts: &Increment) -> (r: Result<
    (),
    CounterError,
>)
    requires
        old(ledger).wf(),
    ensures
        final(ledger).wf(),
        match spec_increment(old(ledger)@, program_id@, accounts.counter@) {
            Ok(m) => r is Ok && final(ledger)@ == m,
            Err(e) => r == Err::<(), CounterError>(e) && final(ledger)@ == old(ledger)@,
        },
{
    match derive_counter_address(program_id) {
        None => Err(CounterError::DerivationFailed),
        Some((addr, _bump)) => {
            if !accounts.counter.equals(&addr) {
                Err(CounterError::AddressMismatch)
            } else {
                step_increment(ledger, program_id, &addr)
            }
        }
    }
}

} // verus!
