//! The free-storage variant: the counter record lives at an address the
//! creator chooses.
//!
//! `initialize` allocates the record at the supplied address; the new
//! account must co-sign (proof of control over the address) and the
//! payer must sign for the funding. `increment` takes the address
//! directly: any caller who can name an existing, program-owned record
//! may increment it — no further authorization check.

use vstd::prelude::*;
use crate::address::Address;
use crate::ledger::Ledger;
use crate::ledger::RecordModel;
use crate::ledger::spec_step_increment;
use crate::ledger::step_increment;
use crate::CounterError;

verus! {

/// The accounts a free-storage `initialize` runs with.
pub struct Initialize {
    /// The caller-chosen address for the new record.
    pub counter: Address,
    /// Whether the transaction carries the new account's co-signature.
    pub counter_is_signer: bool,
    /// The identity charged for the allocation.
    pub payer: Address,
    /// Whether the transaction carries the payer's signature.
    pub payer_is_signer: bool,
}

/// The accounts a free-storage `increment` runs with.
pub struct Increment {
    /// The record address the caller supplies.
    pub counter: Address,
}

/// What `initialize` does to the ledger: with both required signatures,
/// allocate the record at the chosen address with value zero; fail if a
/// record already occupies it. `Err` means the ledger is left unchanged.
pub open spec fn spec_initialize(
    m: Map<Seq<u8>, RecordModel>,
    program_id: Seq<u8>,
    counter_addr: Seq<u8>,
    counter_is_signer: bool,
    payer_is_signer: bool,
) -> Result<Map<Seq<u8>, RecordModel>, CounterError> {
    if !payer_is_signer || !counter_is_signer {
        Err(CounterError::MissingSignature)
    } else if m.contains_key(counter_addr) {
        Err(CounterError::AlreadyInUse)
    } else {
        Ok(m.insert(counter_addr, (RecordModel { owner: program_id, value: 0 })))
    }
}

/// What `increment` does to the ledger: the shared read-modify-write
/// step at the supplied address. `Err` means the ledger is left
/// unchanged.
pub open spec fn spec_increment(
    m: Map<Seq<u8>, RecordModel>,
    program_id: Seq<u8>,
    addr: Seq<u8>,
) -> Result<Map<Seq<u8>, RecordModel>, CounterError> {
    spec_step_increment(m, program_id, addr)
}

/// Create the counter record at the caller-chosen address, with value
/// zero, owned by the hosting program; the new account co-signs and the
/// payer signs.
pub fn initialize(ledger: &mut Ledger, program_id: &Address, accounts: &Initialize) -> (r: Result<
    (),
    CounterError,
>)
    requires
        old(ledger).wf(),
    ensures
        final(ledger).wf(),
        match spec_initialize(
            old(ledger)@,
            program_id@,
            accounts.counter@,
            accounts.counter_is_signer,
            accounts.payer_is_signer,
        ) {
            Ok(m) => r is Ok && final(ledger)@ == m,
            Err(e) => r == Err::<(), CounterError>(e) && final(ledger)@ == old(ledger)@,
        },
{
    if !accounts.payer_is_signer || !accounts.counter_is_signer {
        return Err(CounterError::MissingSignature);
    }
    ledger.allocate(&accounts.counter, program_id)
}

/// Add one to the counter at the supplied address, provided a record of
/// the expected shape exists there.
pub fn increment(ledger: &mut Ledger, program_id: &Address, accounts: &Increment) -> (r: Result<
    (),
    CounterError,
>)
    requires
        old(ledger).wf(),
    ensures
        final(ledger).wf(),
        match spec_increment(old(ledger)@, program_id@, accounts.counter@) {
            Ok(m) => r is Ok && final(ledger)@ == m,
            Err(e) => r == Err::<(), CounterError>(e) && final(ledger)@ == old(ledger)@,
        },
{
    step_increment(ledger, program_id, &accounts.counter)
}

} // verus!
