//! A model of the host runtime's account storage: a ledger of fixed-shape
//! records keyed by address.
//!
//! The ledger offers the record interface the two program variants build
//! on: allocate-if-absent creation, reads, owner assertion, and writes.
//! Its mathematical model is a map from addresses (as byte sequences) to
//! record contents; every operation's contract is stated over that map.

use vstd::prelude::*;
use crate::address::Address;
use crate::CounterError;
use crate::Counter;
use crate::incremented;

verus! {

/// The model of one stored record: the program that owns it for write
/// purposes, and the counter value it holds.
pub struct RecordModel {
    pub owner: Seq<u8>,
    pub value: u64,
}

/// One stored record: the owning program's identity and the counter.
pub struct Record {
    pub owner: Address,
    pub counter: Counter,
}

impl View for Record {
    type V = RecordModel;

    open spec fn view(&self) -> RecordModel {
        RecordModel { owner: self.owner@, value: self.counter.value }
    }
}

/// The ledger: every allocated record, keyed by its address.
pub struct Ledger {
    records: Vec<(Address, Record)>,
}

/// The map a sequence of keyed records denotes.
spec fn map_of(s: Seq<(Address, Record)>) -> Map<Seq<u8>, RecordModel>
    decreases s.len(),
{
    if s.len() == 0 {
        Map::empty()
    } else {
        map_of(s.drop_last()).insert(s.last().0@, s.last().1@)
    }
}

/// No two records share an address.
spec fn keys_unique(s: Seq<(Address, Record)>) -> bool {
    forall|i: int, j: int| 0 <= i < j < s.len() ==> s[i].0@ != s[j].0@
}

/// A key is in the denoted map exactly when some record carries it.
proof fn lemma_map_of_contains(s: Seq<(Address, Record)>, k: Seq<u8>)
    ensures
        map_of(s).contains_key(k) <==> (exists|i: int| 0 <= i < s.len() && s[i].0@ == k),
    decreases s.len(),
{
    if s.len() > 0 {
        lemma_map_of_contains(s.drop_last(), k);
        if s.last().0@ == k {
            assert(s[s.len() - 1].0@ == k);
        } else if map_of(s).contains_key(k) {
            let i = choose|i: int| 0 <= i < s.drop_last().len() && s.drop_last()[i].0@ == k;
            assert(s[i].0@ == k);
        } else if exists|i: int| 0 <= i < s.len() && s[i].0@ == k {
            let i = choose|i: int| 0 <= i < s.len() && s[i].0@ == k;
            assert(s.drop_last()[i].0@ == k);
        }
    }
}

/// With unique keys, the denoted map sends each record's address to that
/// record's contents.
proof fn lemma_map_of_index(s: Seq<(Address, Record)>, i: int)
    requires
        keys_unique(s),
        0 <= i < s.len(),
    ensures
        map_of(s).contains_key(s[i].0@),
        map_of(s)[s[i].0@] == s[i].1@,
    decreases s.len(),
{
    if i < s.len() - 1 {
        lemma_map_of_index(s.drop_last(), i);
        assert(s.drop_last()[i] == s[i]);
        assert(s[i].0@ != s.last().0@);
    }
}

/// Rewriting the record at index `i` with one that keeps its address
/// denotes an insert at that address.
proof fn lemma_map_of_update(s: Seq<(Address, Record)>, i: int, x: (Address, Record))
    requires
        keys_unique(s),
        0 <= i < s.len(),
        x.0@ == s[i].0@,
    ensures
        keys_unique(s.update(i, x)),
        map_of(s.update(i, x)) == map_of(s).insert(x.0@, x.1@),
    decreases s.len(),
{
    let t = s.update(i, x);
    assert(t.len() == s.len());
    assert forall|p: int, q: int| 0 <= p < q < t.len() implies t[p].0@ != t[q].0@ by {
        assert(s[p].0@ != s[q].0@);
    }
    if i == s.len() - 1 {
        assert(t.drop_last() =~= s.drop_last());
        assert(t.last() == x);
        assert(map_of(s).insert(x.0@, x.1@) =~= map_of(s.drop_last()).insert(x.0@, x.1@));
    } else {
        assert(t.drop_last() =~= s.drop_last().update(i, x));
        lemma_map_of_update(s.drop_last(), i, x);
        assert(t.last() == s.last());
        assert(x.0@ != s.last().0@) by {
            assert(s[i].0@ != s[s.len() - 1].0@);
        }
        assert(map_of(t) =~= map_of(s).insert(x.0@, x.1@));
    }
}

impl View for Ledger {
    type V = Map<Seq<u8>, RecordModel>;

    closed spec fn view(&self) -> Map<Seq<u8>, RecordModel> {
        map_of(self.records@)
    }
}

impl Ledger {
    /// Well-formedness: no two records share an address.
    pub closed spec fn wf(&self) -> bool {
        keys_unique(self.records@)
    }

    /// An empty ledger.
    pub fn new() -> (r: Ledger)
        ensures
            r.wf(),
            r@ == Map::<Seq<u8>, RecordModel>::empty(),
    {
        Ledger { records: Vec::new() }
    }

    /// The index of the record at `addr`, if one is allocated.
    fn index_of(&self, addr: &Address) -> (r: Option<usize>)
        requires
            self.wf(),
        ensures
            r is Some <==> self@.contains_key(addr@),
            r is Some ==> ({
                let i = r.unwrap() as int;
                0 <= i < self.records@.len() && self.records@[i].0@ == addr@
                    && self@[addr@] == self.records@[i].1@
            }),
    {
        let n: usize = self.records.len();
        let mut i: usize = 0;
        while i < n
            invariant
                self.wf(),
                n == self.records@.len(),
                i <= n,
                forall|j: int| 0 <= j < i ==> self.records@[j].0@ != addr@,
            decreases n - i,
        {
            if self.records[i].0.equals(addr) {
                proof {
                    lemma_map_of_index(self.records@, i as int);
                }
                return Some(i);
            }
            i = i + 1;
        }
        proof {
            lemma_map_of_contains(self.records@, addr@);
        }
        None
    }

    /// Read the counter value stored at `addr`.
    pub fn read(&self, addr: &Address) -> (r: Option<u64>)
        requires
            self.wf(),
        ensures
            r is Some <==> self@.contains_key(addr@),
            r is Some ==> r.unwrap() == self@[addr@].value,
    {
        match self.index_of(addr) {
            Some(i) => Some(self.records[i].1.counter.value),
            None => None,
        }
    }

    /// Assert that the record at `addr` exists and is owned by `owner`:
    /// the host runtime's account-typing check.
    pub fn assert_owner(&self, addr: &Address, owner: &Address) -> (r: Result<(), CounterError>)
        requires
            self.wf(),
        ensures
            !self@.contains_key(addr@) ==> r == Err::<(), CounterError>(CounterError::AccountNotFound),
            self@.contains_key(addr@) && self@[addr@].owner != owner@ ==> r == Err::<(), CounterError>(
                CounterError::WrongOwner,
            ),
            self@.contains_key(addr@) && self@[addr@].owner == owner@ ==> r is Ok,
    {
        match self.index_of(addr) {
            None => Err(CounterError::AccountNotFound),
            Some(i) => {
                if self.records[i].1.owner.equals(owner) {
                    Ok(())
                } else {
                    Err(CounterError::WrongOwner)
                }
            }
        }
    }

    /// Allocate a fresh record at `addr`, owned by `owner`, with value
    /// zero: fails, leaving the ledger unchanged, exactly when a record
    /// already occupies the address.
    pub fn allocate(&mut self, addr: &Address, owner: &Address) -> (r: Result<(), CounterError>)
        requires
            old(self).wf(),
        ensures
            final(self).wf(),
            old(self)@.contains_key(addr@) ==> r == Err::<(), CounterError>(CounterError::AlreadyInUse)
                && final(self)@ == old(self)@,
            !old(self)@.contains_key(addr@) ==> r is Ok && final(self)@ == old(self)@.insert(
                addr@,
                (RecordModel { owner: owner@, value: 0 }),
            ),
    {
        match self.index_of(addr) {
            Some(_) => Err(CounterError::AlreadyInUse),
            None => {
                proof {
                    lemma_map_of_contains(self.records@, addr@);
                }
                let entry = (*addr, Record { owner: *owner, counter: Counter { value: 0 } });
                let ghost s0 = self.records@;
                self.records.push(entry);
                proof {
                    assert(self.records@.drop_last() =~= s0);
                    assert(self.records@.last() == entry);
                }
                Ok(())
            }
        }
    }

    /// Overwrite the counter value at `addr`, keeping the record's owner:
    /// fails, leaving the ledger unchanged, exactly when no record is
    /// allocated there.
    pub fn write_value(&mut self, addr: &Address, value: u64) -> (r: Result<(), CounterError>)
        requires
            old(self).wf(),
        ensures
            final(self).wf(),
            !old(self)@.contains_key(addr@) ==> r == Err::<(), CounterError>(
                CounterError::AccountNotFound,
            ) && final(self)@ == old(self)@,
            old(self)@.contains_key(addr@) ==> r is Ok && final(self)@ == old(self)@.insert(
                addr@,
                (RecordModel { owner: old(self)@[addr@].owner, value: value }),
            ),
    {
        match self.index_of(addr) {
            None => Err(CounterError::AccountNotFound),
            Some(i) => {
                let entry = (self.records[i].0, Record {
                    owner: self.records[i].1.owner,
                    counter: Counter { value },
                });
                let ghost s0 = self.records@;
                self.records.set(i, entry);
                proof {
                    assert(self.records@ =~= s0.update(i as int, entry));
                    lemma_map_of_update(s0, i as int, entry);
                }
                Ok(())
            }
        }
    }
}

/// The authenticated read-modify-write step both variants share once the
/// target address is settled: the record must exist and be owned by the
/// invoking program, and the value must stand below the 64-bit boundary;
/// then the value rises by exactly one.
pub open spec fn spec_step_increment(
    m: Map<Seq<u8>, RecordModel>,
    program_id: Seq<u8>,
    addr: Seq<u8>,
) -> Result<Map<Seq<u8>, RecordModel>, CounterError> {
    if !m.contains_key(addr) {
        Err(CounterError::AccountNotFound)
    } else if m[addr].owner != program_id {
        Err(CounterError::WrongOwner)
    } else if m[addr].value == u64::MAX {
        Err(CounterError::ValueOverflow)
    } else {
        Ok(m.insert(addr, (RecordModel { owner: m[addr].owner, value: (m[addr].value + 1) as u64 })))
    }
}

/// Add one to the record at `addr`, after the host-side checks: a single
/// read-modify-write with no intermediate suspension, applied fully or
/// not at all.
pub fn step_increment(ledger: &mut Ledger, program_id: &Address, addr: &Address) -> (r: Result<
    (),
    CounterError,
>)
    requires
        old(ledger).wf(),
    ensures
        final(ledger).wf(),
        match spec_step_increment(old(ledger)@, program_id@, addr@) {
            Ok(m) => r is Ok && final(ledger)@ == m,
            Err(e) => r == Err::<(), CounterError>(e) && final(ledger)@ == old(ledger)@,
        },
{
    match ledger.assert_owner(addr, program_id) {
        Err(e) => Err(e),
        Ok(()) => {
            let value: u64 = ledger.read(addr).unwrap();
            match incremented(value) {
                Err(e) => Err(e),
                Ok(next) => {
                    match ledger.write_value(addr, next) {
                        Ok(()) => Ok(()),
                        Err(e) => Err(e),
                    }
                }
            }
        }
    }
}

} // verus!
