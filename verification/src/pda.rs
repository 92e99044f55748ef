//! Deterministic derivation of the counter record's storage address
//! (addressed-storage variant).
//!
//! The address is a pure function of a fixed label and the hosting
//! program's identity, found by a bounded search over nonces ("bumps"):
//! the search tries bumps from 255 downward and keeps the first candidate
//! that passes the host's validity test (the candidate must not be a
//! valid signing identity, i.e. must lie off the ed25519 curve).

use vstd::prelude::*;
use crate::address::Address;
use anchor_lang::solana_program::pubkey::Pubkey;

verus! {

/// The fixed label, the bytes of `"counter"`, under which the
/// addressed-storage variant derives its record address.
pub open spec fn counter_label() -> Seq<u8> {
    seq![99u8, 111u8, 117u8, 110u8, 116u8, 101u8, 114u8]
}

/// What `Pubkey::create_program_address` returns for the seed pair
/// (label, [bump]) under `program_id`: `Some` holds the derived 32-byte
/// address, `None` stands for a candidate that fails the validity test
/// (its hash lies on the ed25519 curve). The result is a SHA-256 digest
/// plus a curve-membership test, a function of the arguments alone, so it
/// carries a name here rather than a definition.
pub uninterp spec fn pda_candidate(label: Seq<u8>, bump: u8, program_id: Seq<u8>) -> Option<Seq<u8>>;

/// Relies on `Pubkey::create_program_address` (crate `solana-address`,
/// re-exported through `anchor_lang`): for seeds no longer than the
/// 32-byte seed limit it is a deterministic function of the seeds and the
/// program identity, returning `Err(InvalidSeeds)` exactly when the
/// candidate fails the off-curve validity test.
#[verifier::external_body]
fn derive_candidate(label: &Vec<u8>, bump: u8, program_id: &Address) -> (r: Option<Address>)
    requires
        label@.len() <= 32,
    ensures
        r is Some <==> pda_candidate(label@, bump, program_id@) is Some,
        r is Some ==> r.unwrap()@ == pda_candidate(label@, bump, program_id@).unwrap(),
{
    let program = Pubkey::new_from_array(program_id.bytes);
    match Pubkey::create_program_address(&[label.as_slice(), &[bump]], &program) {
        Ok(address) => Some(Address { bytes: address.to_bytes() }),
        Err(_) => None,
    }
}

/// The first valid derived address at or below `bump`, searching downward
/// and never using bump 0 (the host's search stops at 1).
pub open spec fn derive_from(label: Seq<u8>, program_id: Seq<u8>, bump: u8) -> Option<(Seq<u8>, u8)>
    decreases bump,
{
    if bump == 0 {
        None
    } else {
        match pda_candidate(label, bump, program_id) {
            Some(address) => Some((address, bump)),
            None => derive_from(label, program_id, (bump - 1) as u8),
        }
    }
}

/// The derived address and bump for a label under a program identity:
/// the highest bump in 255..=1 whose candidate is valid.
pub open spec fn spec_derive(label: Seq<u8>, program_id: Seq<u8>) -> Option<(Seq<u8>, u8)> {
    derive_from(label, program_id, 255)
}

/// Skipping bumps whose candidates are all invalid does not change the
/// outcome of the search.
proof fn lemma_derive_skip(label: Seq<u8>, program_id: Seq<u8>, hi: u8, lo: u8)
    requires
        lo <= hi,
        forall|b: u8| lo < b <= hi ==> pda_candidate(label, b, program_id) is None,
    ensures
        derive_from(label, program_id, hi) == derive_from(label, program_id, lo),
    decreases hi - lo,
{
    if lo < hi {
        assert(pda_candidate(label, hi, program_id) is None);
        lemma_derive_skip(label, program_id, (hi - 1) as u8, lo);
    }
}

/// The label bytes as an executable value.
pub fn counter_label_bytes() -> (r: Vec<u8>)
    ensures
        r@ == counter_label(),
{
    let mut v: Vec<u8> = Vec::new();
    v.push(99u8);
    v.push(111u8);
    v.push(117u8);
    v.push(110u8);
    v.push(116u8);
    v.push(101u8);
    v.push(114u8);
    proof {
        assert(v@ =~= counter_label());
    }
    v
}

/// Derive the counter record's address under `program_id`: repeated calls
/// return the same address and bump, since the result is pinned to
/// `spec_derive`, a function of the program identity alone.
pub fn derive_counter_address(program_id: &Address) -> (r: Option<(Address, u8)>)
    ensures
        r is Some <==> spec_derive(counter_label(), program_id@) is Some,
        r is Some ==> ({
            let d = spec_derive(counter_label(), program_id@).unwrap();
            r.unwrap().0@ == d.0 && r.unwrap().1 == d.1
        }),
{
    let label = counter_label_bytes();
    let mut bump: u8 = 255;
    while bump > 0
        invariant
            label@ == counter_label(),
            forall|b: u8| bump < b ==> pda_candidate(counter_label(), b, program_id@) is None,
        decreases bump,
    {
        match derive_candidate(&label, bump, program_id) {
            Some(address) => {
                proof {
                    lemma_derive_skip(counter_label(), program_id@, 255, bump);
                }
                return Some((address, bump));
            }
            None => {
                bump = bump - 1;
            }
        }
    }
    proof {
        lemma_derive_skip(counter_label(), program_id@, 255, 0);
    }
    None
}

} // verus!
