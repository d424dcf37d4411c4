use vstd::prelude::*;

use crate::address::{Address, AddressV};
use crate::error::ErrorCode;
use crate::identity::Identity;

verus! {

/// One persisted record: a fixed-size binary blob at its derived address.
pub struct StoredRecord {
    pub addr: Address,
    pub bytes: Vec<u8>,
}

/// The contents of a sequence of records, as a map from address to bytes.
/// A later record for an address shadows an earlier one; a well-formed store
/// never holds two records at one address.
pub open spec fn map_of(s: Seq<StoredRecord>) -> Map<AddressV, Seq<u8>>
    decreases s.len(),
{
    if s.len() == 0 {
        Map::empty()
    } else {
        map_of(s.drop_last()).insert(s.last().addr@, s.last().bytes@)
    }
}

/// The record store: fixed-size binary records, each at the address derived
/// from its identity, with "create only if absent" semantics. This is the
/// storage substrate's interface as the registry needs it; durability and
/// rent are the substrate's own business.
pub struct RecordStore {
    records: Vec<StoredRecord>,
}

impl View for RecordStore {
    type V = Map<AddressV, Seq<u8>>;

    closed spec fn view(&self) -> Map<AddressV, Seq<u8>> {
        map_of(self.records@)
    }
}

/// No two records occupy one address.
pub open spec fn unique_addresses(s: Seq<StoredRecord>) -> bool {
    forall|i: int, j: int| 0 <= i < j < s.len() ==> s[i].addr@ != s[j].addr@
}

proof fn lemma_map_of_contains(s: Seq<StoredRecord>, k: AddressV)
    ensures
        map_of(s).dom().contains(k) <==> exists|i: int| 0 <= i < s.len() && s[i].addr@ == k,
    decreases s.len(),
{
    if s.len() > 0 {
        lemma_map_of_contains(s.drop_last(), k);
        if s.last().addr@ == k {
            assert(s[s.len() - 1].addr@ == k);
        } else {
            if map_of(s).dom().contains(k) {
                let i = choose|i: int| 0 <= i < s.drop_last().len() && s.drop_last()[i].addr@ == k;
                assert(s[i].addr@ == k);
            }
            if exists|i: int| 0 <= i < s.len() && s[i].addr@ == k {
                let i = choose|i: int| 0 <= i < s.len() && s[i].addr@ == k;
                assert(s.drop_last()[i].addr@ == k);
            }
        }
    }
}

proof fn lemma_map_of_index(s: Seq<StoredRecord>, i: int)
    requires
        0 <= i < s.len(),
        unique_addresses(s),
    ensures
        map_of(s).dom().contains(s[i].addr@),
        map_of(s)[s[i].addr@] == s[i].bytes@,
    decreases s.len(),
{
    if i < s.len() - 1 {
        assert(unique_addresses(s.drop_last()));
        lemma_map_of_index(s.drop_last(), i);
        assert(s.drop_last()[i] == s[i]);
        assert(s[i].addr@ != s.last().addr@);
    }
}

proof fn lemma_map_of_push(s: Seq<StoredRecord>, rec: StoredRecord)
    ensures
        map_of(s.push(rec)) == map_of(s).insert(rec.addr@, rec.bytes@),
{
    assert(s.push(rec).drop_last() =~= s);
    assert(s.push(rec).last() == rec);
}

proof fn lemma_map_of_update(s: Seq<StoredRecord>, i: int, rec: StoredRecord)
    requires
        0 <= i < s.len(),
        unique_addresses(s),
        rec.addr@ == s[i].addr@,
    ensures
        map_of(s.update(i, rec)) =~= map_of(s).insert(rec.addr@, rec.bytes@),
    decreases s.len(),
{
    if i == s.len() - 1 {
        assert(s.update(i, rec).drop_last() =~= s.drop_last());
        assert(s.update(i, rec).last() == rec);
    } else {
        assert(unique_addresses(s.drop_last()));
        lemma_map_of_update(s.drop_last(), i, rec);
        assert(s.update(i, rec).drop_last() =~= s.drop_last().update(i, rec));
        assert(s.update(i, rec).last() == s.last());
        // the two keys are distinct, so the inserts commute
        assert(s[i].addr@ != s.last().addr@);
    }
}

proof fn lemma_map_of_dom_len(s: Seq<StoredRecord>)
    requires
        unique_addresses(s),
    ensures
        map_of(s).dom().finite(),
        map_of(s).dom().len() == s.len(),
    decreases s.len(),
{
    if s.len() > 0 {
        assert(unique_addresses(s.drop_last()));
        lemma_map_of_dom_len(s.drop_last());
        lemma_map_of_contains(s.drop_last(), s.last().addr@);
        assert(forall|i: int| 0 <= i < s.drop_last().len() ==> s[i].addr@ != s.last().addr@);
        assert(!map_of(s.drop_last()).dom().contains(s.last().addr@));
        assert(map_of(s).dom() =~= map_of(s.drop_last()).dom().insert(s.last().addr@));
    }
}

impl RecordStore {
    /// Whether the store is well formed: no two records at one address.
    pub closed spec fn wf(self) -> bool {
        unique_addresses(self.records@)
    }

    /// An empty store: no records at all.
    pub fn new() -> (r: RecordStore)
        ensures
            r.wf(),
            r@ == Map::<AddressV, Seq<u8>>::empty(),
    {
        RecordStore { records: Vec::new() }
    }

    /// How many records exist.
    pub fn record_count(&self) -> (r: usize)
        requires
            self.wf(),
        ensures
            r == self@.dom().len(),
    {
        proof {
            lemma_map_of_dom_len(self.records@);
        }
        self.records.len()
    }

    fn find_index(&self, addr: &Address) -> (r: Option<usize>)
        ensures
            match r {
                Some(i) => i < self.records@.len() && self.records@[i as int].addr@ == addr@,
                None => forall|i: int|
                    0 <= i < self.records@.len() ==> self.records@[i].addr@ != addr@,
            },
    {
        let mut i: usize = 0;
        while i < self.records.len()
            invariant
                0 <= i <= self.records@.len(),
                forall|j: int| 0 <= j < i ==> self.records@[j].addr@ != addr@,
            decreases self.records@.len() - i,
        {
            if self.records[i].addr.equals(addr) {
                return Some(i);
            }
            i = i + 1;
        }
        None
    }

    /// Whether a record exists at `addr`.
    pub fn contains(&self, addr: &Address) -> (r: bool)
        ensures
            r == self@.dom().contains(addr@),
    {
        proof {
            lemma_map_of_contains(self.records@, addr@);
        }
        self.find_index(addr).is_some()
    }

    /// Creates a fixed-size record at `addr`, charged to `payer`, initialized
    /// to `initial_bytes` — unless a record already lives there, in which
    /// case nothing changes and the creation is rejected. This is what makes
    /// record creation race-safe: two concurrent first-writes to one address
    /// collide here, and exactly one wins.
    ///
    /// Payment and allocation are the storage substrate's concern; the store
    /// records only the contents.
    pub fn create_if_absent(
        &mut self,
        addr: Address,
        size: usize,
        initial_bytes: Vec<u8>,
        _payer: &Identity,
    ) -> (r: Result<(), ErrorCode>)
        requires
            old(self).wf(),
        ensures
            final(self).wf(),
            old(self)@.dom().contains(addr@) ==> r == Err::<(), ErrorCode>(
                ErrorCode::AlreadyExists,
            ) && final(self)@ == old(self)@,
            !old(self)@.dom().contains(addr@) && initial_bytes@.len() != size ==> r == Err::<
                (),
                ErrorCode,
            >(ErrorCode::SizeMismatch) && final(self)@ == old(self)@,
            !old(self)@.dom().contains(addr@) && initial_bytes@.len() == size ==> r == Ok::<
                (),
                ErrorCode,
            >(()) && final(self)@ == old(self)@.insert(addr@, initial_bytes@),
    {
        proof {
            lemma_map_of_contains(self.records@, addr@);
        }
        match self.find_index(&addr) {
            Some(_) => Err(ErrorCode::AlreadyExists),
            None => {
                if initial_bytes.len() != size {
                    return Err(ErrorCode::SizeMismatch);
                }
                let rec = StoredRecord { addr, bytes: initial_bytes };
                proof {
                    lemma_map_of_push(self.records@, rec);
                }
                self.records.push(rec);
                Ok(())
            },
        }
    }

    /// Reads the record at `addr`, or reports that none was ever created.
    pub fn load(&self, addr: &Address) -> (r: Result<&Vec<u8>, ErrorCode>)
        requires
            self.wf(),
        ensures
            self@.dom().contains(addr@) ==> (r matches Ok(b) && b@ == self@[addr@]),
            !self@.dom().contains(addr@) ==> r == Err::<&Vec<u8>, ErrorCode>(ErrorCode::NotFound),
    {
        proof {
            lemma_map_of_contains(self.records@, addr@);
        }
        match self.find_index(addr) {
            Some(i) => {
                proof {
                    lemma_map_of_index(self.records@, i as int);
                }
                Ok(&self.records[i].bytes)
            },
            None => Err(ErrorCode::NotFound),
        }
    }

    /// Overwrites the contents of the record at `addr` in place. Fails if no
    /// record exists there, or if `bytes` does not match the record's fixed
    /// layout width.
    pub fn store(&mut self, addr: &Address, bytes: Vec<u8>) -> (r: Result<(), ErrorCode>)
        requires
            old(self).wf(),
        ensures
            final(self).wf(),
            !old(self)@.dom().contains(addr@) ==> r == Err::<(), ErrorCode>(ErrorCode::NotFound)
                && final(self)@ == old(self)@,
            old(self)@.dom().contains(addr@) && bytes@.len() != old(self)@[addr@].len() ==> r
                == Err::<(), ErrorCode>(ErrorCode::SizeMismatch) && final(self)@ == old(self)@,
            old(self)@.dom().contains(addr@) && bytes@.len() == old(self)@[addr@].len() ==> r
                == Ok::<(), ErrorCode>(()) && final(self)@ == old(self)@.insert(addr@, bytes@),
    {
        proof {
            lemma_map_of_contains(self.records@, addr@);
        }
        match self.find_index(addr) {
            None => Err(ErrorCode::NotFound),
            Some(i) => {
                proof {
                    lemma_map_of_index(self.records@, i as int);
                }
                if bytes.len() != self.records[i].bytes.len() {
                    return Err(ErrorCode::SizeMismatch);
                }
                let a = self.records[i].addr;
                let rec = StoredRecord { addr: a, bytes };
                proof {
                    lemma_map_of_update(self.records@, i as int, rec);
                }
                self.records[i] = rec;
                Ok(())
            },
        }
    }
}

} // verus!
