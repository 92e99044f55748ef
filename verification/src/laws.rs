//! The library's general properties, proved once over the ledger model
//! that every operation's contract is stated against.

use vstd::prelude::*;
use crate::ledger::RecordModel;
use crate::ledger::spec_step_increment;
use crate::pda::counter_label;
use crate::pda::spec_derive;
use crate::addressed;
use crate::free;
use crate::CounterError;

verus! {

/// The ledger after `n` increment steps at `addr`, failing as soon as
/// one step fails.
pub open spec fn iterated_increments(
    m: Map<Seq<u8>, RecordModel>,
    program_id: Seq<u8>,
    addr: Seq<u8>,
    n: nat,
) -> Result<Map<Seq<u8>, RecordModel>, CounterError>
    decreases n,
{
    if n == 0 {
        Ok(m)
    } else {
        match iterated_increments(m, program_id, addr, (n - 1) as nat) {
            Ok(mi) => spec_step_increment(mi, program_id, addr),
            Err(e) => Err(e),
        }
    }
}

/// After one `initialize` — a fresh program-owned record with value
/// zero — every sequence of `n` successful `increment` calls leaves the
/// counter at exactly `n`. Both variants' successful increments apply
/// `spec_step_increment` at their record's address.
pub proof fn lemma_value_counts_increments(
    m: Map<Seq<u8>, RecordModel>,
    program_id: Seq<u8>,
    addr: Seq<u8>,
    n: nat,
)
    requires
        m.contains_key(addr),
        m[addr].owner == program_id,
        m[addr].value == 0,
        iterated_increments(m, program_id, addr, n) is Ok,
    ensures
        iterated_increments(m, program_id, addr, n).unwrap().contains_key(addr),
        iterated_increments(m, program_id, addr, n).unwrap()[addr].owner == program_id,
        iterated_increments(m, program_id, addr, n).unwrap()[addr].value == n,
    decreases n,
{
    if n > 0 {
        lemma_value_counts_increments(m, program_id, addr, (n - 1) as nat);
    }
}

/// A successful increment raises its own record's value by exactly one
/// and touches no other record; no record's value ever decreases. Both
/// variants' successful increments are `spec_step_increment` at their
/// record's address.
pub proof fn lemma_increment_changes_only_its_record(
    m: Map<Seq<u8>, RecordModel>,
    program_id: Seq<u8>,
    addr: Seq<u8>,
)
    requires
        spec_step_increment(m, program_id, addr) is Ok,
    ensures
        ({
            let m1 = spec_step_increment(m, program_id, addr).unwrap();
            &&& m1[addr].value == m[addr].value + 1
            &&& m1[addr].owner == m[addr].owner
            &&& forall|k: Seq<u8>| #[trigger] m.contains_key(k) ==> m1.contains_key(k)
            &&& forall|k: Seq<u8>|
                k != addr && #[trigger] m.contains_key(k) ==> m1[k] == m[k]
            &&& forall|k: Seq<u8>| #[trigger] m.contains_key(k) ==> m1[k].value >= m[k].value
        }),
{
}

/// A successful initialization creates its own record with value zero,
/// owned by the hosting program, and touches no other record.
pub proof fn lemma_initialize_changes_only_its_record(
    m: Map<Seq<u8>, RecordModel>,
    program_id: Seq<u8>,
    counter_addr: Seq<u8>,
)
    ensures
        free::spec_initialize(m, program_id, counter_addr, true, true) is Ok ==> ({
            let m1 = free::spec_initialize(m, program_id, counter_addr, true, true).unwrap();
            &&& m1[counter_addr] == (RecordModel { owner: program_id, value: 0 })
            &&& forall|k: Seq<u8>|
                k != counter_addr && #[trigger] m.contains_key(k) ==> m1.contains_key(k) && m1[k]
                    == m[k]
        }),
        addressed::spec_initialize(m, program_id, true) is Ok ==> ({
            let m1 = addressed::spec_initialize(m, program_id, true).unwrap();
            let d = spec_derive(counter_label(), program_id).unwrap();
            &&& m1[d.0] == (RecordModel { owner: program_id, value: 0 })
            &&& forall|k: Seq<u8>|
                k != d.0 && #[trigger] m.contains_key(k) ==> m1.contains_key(k) && m1[k] == m[k]
        }),
{
}

/// Addressed variant: `initialize` run twice under the same program
/// identity fails the second time with `AlreadyInUse`; the value the
/// first call set is zero and the rejected call leaves it untouched
/// (every `Err` leaves the ledger unchanged, by the operation's
/// contract).
pub proof fn lemma_addressed_reinitialize_rejected(m: Map<Seq<u8>, RecordModel>, program_id: Seq<u8>)
    ensures
        addressed::spec_initialize(m, program_id, true) is Ok ==> ({
            let m1 = addressed::spec_initialize(m, program_id, true).unwrap();
            let d = spec_derive(counter_label(), program_id).unwrap();
            &&& addressed::spec_initialize(m1, program_id, true) == Err::<
                Map<Seq<u8>, RecordModel>,
                CounterError,
            >(CounterError::AlreadyInUse)
            &&& m1[d.0].value == 0
        }),
{
}

/// Free variant: `initialize` run twice at the same chosen address fails
/// the second time with `AlreadyInUse`; the value the first call set is
/// zero and the rejected call leaves it untouched.
pub proof fn lemma_free_reinitialize_rejected(
    m: Map<Seq<u8>, RecordModel>,
    program_id: Seq<u8>,
    counter_addr: Seq<u8>,
)
    ensures
        free::spec_initialize(m, program_id, counter_addr, true, true) is Ok ==> ({
            let m1 = free::spec_initialize(m, program_id, counter_addr, true, true).unwrap();
            &&& free::spec_initialize(m1, program_id, counter_addr, true, true) == Err::<
                Map<Seq<u8>, RecordModel>,
                CounterError,
            >(CounterError::AlreadyInUse)
            &&& m1[counter_addr].value == 0
        }),
{
}

/// Addressed variant: an `increment` presented with any address other
/// than the derived one is rejected with `AddressMismatch`, and so — by
/// the operation's contract on `Err` — mutates no record.
pub proof fn lemma_mismatched_address_rejected(
    m: Map<Seq<u8>, RecordModel>,
    program_id: Seq<u8>,
    presented: Seq<u8>,
)
    ensures
        (spec_derive(counter_label(), program_id) is Some && presented != spec_derive(
            counter_label(),
            program_id,
        ).unwrap().0) ==> addressed::spec_increment(m, program_id, presented) == Err::<
            Map<Seq<u8>, RecordModel>,
            CounterError,
        >(CounterError::AddressMismatch),
{
}

/// Free variant: an `increment` targeting an address with no existing
/// record fails with `AccountNotFound`.
pub proof fn lemma_missing_record_rejected(
    m: Map<Seq<u8>, RecordModel>,
    program_id: Seq<u8>,
    addr: Seq<u8>,
)
    ensures
        !m.contains_key(addr) ==> free::spec_increment(m, program_id, addr) == Err::<
            Map<Seq<u8>, RecordModel>,
            CounterError,
        >(CounterError::AccountNotFound),
{
}

} // verus!
