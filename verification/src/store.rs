use vstd::prelude::*;

use crate::addr::Address;
use crate::errors::ErrorCode;
use crate::record::PDAPurchases;
use crate::record::Funder;
use crate::record::bitmask_bytes;
use crate::record::clamped_write;
use crate::record::min_balance_of;
use crate::record::record_space;
use crate::record::valid_collection_size;
use crate::record::zero_bytes;

verus! {

/// One stored record, keyed by its derived storage address.
pub struct Entry {
    pub address: Address,
    pub record: PDAPurchases,
}

/// The first record stored under address `a`, walking the entries in order.
pub open spec fn lookup(s: Seq<Entry>, a: Seq<u8>) -> Option<PDAPurchases>
    decreases s.len(),
{
    if s.len() == 0 {
        None
    } else if s[0].address@ == a {
        Some(s[0].record)
    } else {
        lookup(s.drop_first(), a)
    }
}

/// The record under `a` reduced to what it persists: owner bytes and bitmask.
pub open spec fn lookup_view(s: Seq<Entry>, a: Seq<u8>) -> Option<(Seq<u8>, Seq<u8>)> {
    match lookup(s, a) {
        Some(rec) => Some((rec.owner@, rec.data@)),
        None => None,
    }
}

proof fn lemma_lookup_skip_step(s: Seq<Entry>, a: Seq<u8>, i: int)
    requires
        0 <= i < s.len(),
        s[i].address@ != a,
    ensures
        lookup(s.skip(i), a) == lookup(s.skip(i + 1), a),
{
    assert(s.skip(i).len() == s.len() - i);
    assert(s.skip(i)[0] == s[i]);
    assert(s.skip(i).drop_first() =~= s.skip(i + 1));
}

proof fn lemma_lookup_skip_hit(s: Seq<Entry>, i: int)
    requires
        0 <= i < s.len(),
    ensures
        lookup(s.skip(i), s[i].address@) == Some(s[i].record),
{
    assert(s.skip(i)[0] == s[i]);
}

/// Appending an entry changes only lookups that previously found nothing
/// under the appended address.
proof fn lemma_lookup_push(s: Seq<Entry>, e: Entry, b: Seq<u8>)
    ensures
        lookup(s.push(e), b) == if lookup(s, b) is Some {
            lookup(s, b)
        } else if e.address@ == b {
            Some(e.record)
        } else {
            None::<PDAPurchases>
        },
    decreases s.len(),
{
    let t = s.push(e);
    assert(t.len() == s.len() + 1);
    if s.len() == 0 {
        assert(t[0] == e);
        if e.address@ == b {
            assert(lookup(t, b) == Some(e.record));
        } else {
            assert(t.drop_first() =~= Seq::<Entry>::empty());
            assert(lookup(t, b) == lookup(t.drop_first(), b));
            assert(lookup(t.drop_first(), b) is None);
        }
    } else {
        assert(t[0] == s[0]);
        if s[0].address@ == b {
            assert(lookup(t, b) == Some(s[0].record));
            assert(lookup(s, b) == Some(s[0].record));
        } else {
            assert(t.drop_first() =~= s.drop_first().push(e));
            lemma_lookup_push(s.drop_first(), e, b);
            assert(lookup(t, b) == lookup(s.drop_first().push(e), b));
            assert(lookup(s, b) == lookup(s.drop_first(), b));
        }
    }
}

/// Replacing the first entry stored under an address rebinds that address
/// and leaves every other address unchanged.
proof fn lemma_lookup_update(s: Seq<Entry>, i: int, e: Entry, b: Seq<u8>)
    requires
        0 <= i < s.len(),
        e.address@ == s[i].address@,
        forall|j: int| 0 <= j < i ==> s[j].address@ != s[i].address@,
    ensures
        lookup(s.update(i, e), s[i].address@) == Some(e.record),
        b != s[i].address@ ==> lookup(s.update(i, e), b) == lookup(s, b),
    decreases i,
{
    let t = s.update(i, e);
    assert(t.len() == s.len());
    if i == 0 {
        assert(t[0] == e);
        if b != s[0].address@ {
            assert(t.drop_first() =~= s.drop_first());
        }
    } else {
        assert(t[0] == s[0]);
        assert(s[0].address@ != s[i].address@);
        assert(t.drop_first() =~= s.drop_first().update(i - 1, e));
        assert(s.drop_first()[i - 1] == s[i]);
        assert forall|j: int| 0 <= j < i - 1 implies (#[trigger] s.drop_first()[j]).address@
            != s.drop_first()[i - 1].address@ by {
            assert(s.drop_first()[j] == s[j + 1]);
        }
        lemma_lookup_update(s.drop_first(), i - 1, e, b);
    }
}

/// What one creation step yields at the level of persisted values: the
/// state under the target address afterwards, the funder balance
/// afterwards, and the result handed back. An out-of-policy size fails
/// first, whatever else holds; then creation is skipped when a record
/// already stands at the address; otherwise it is all-or-nothing: a short
/// balance changes nothing.
pub open spec fn create_outcome(
    existing: Option<(Seq<u8>, Seq<u8>)>,
    balance: u64,
    owner: Seq<u8>,
    collection_size: int,
) -> (Option<(Seq<u8>, Seq<u8>)>, u64, Result<(Seq<u8>, Seq<u8>), ErrorCode>) {
    if !valid_collection_size(collection_size) {
        (existing, balance, Err(ErrorCode::InvalidCollectionSize))
    } else if existing is Some {
        (existing, balance, Ok(existing->Some_0))
    } else if balance < min_balance_of(record_space(collection_size) as u64) {
        (existing, balance, Err(ErrorCode::InsufficientFunding))
    } else {
        let rec = (owner, zero_bytes(bitmask_bytes(collection_size) as nat));
        (
            Some(rec),
            (balance - min_balance_of(record_space(collection_size) as u64)) as u64,
            Ok(rec),
        )
    }
}

/// Law: creation is idempotent. Creating once and then creating again for
/// the same owner leaves the stored record and the funder balance exactly
/// as a single creation does: no double funding, no re-zeroing.
pub proof fn lemma_create_idempotent(balance: u64, owner: Seq<u8>, collection_size: int)
    ensures
        ({
            let once = create_outcome(None, balance, owner, collection_size);
            let twice = create_outcome(once.0, once.1, owner, collection_size);
            twice.0 == once.0 && twice.1 == once.1
        }),
{
}

/// Law: creation for an absent record succeeds if and only if the size is
/// in policy and the funder balance covers the funding requirement; an
/// out-of-policy size fails with `InvalidCollectionSize` regardless of
/// funding and of any record already standing there, and no failure
/// debits the funder or changes the stored state.
pub proof fn lemma_create_success_iff(
    existing: Option<(Seq<u8>, Seq<u8>)>,
    balance: u64,
    owner: Seq<u8>,
    collection_size: int,
)
    ensures
        ({
            let out = create_outcome(None, balance, owner, collection_size);
            &&& (out.2 is Ok) <==> (valid_collection_size(collection_size) && balance
                >= min_balance_of(record_space(collection_size) as u64))
            &&& (out.2 is Err) ==> out.1 == balance && out.0 is None
        }),
        !valid_collection_size(collection_size) ==> create_outcome(
            existing,
            balance,
            owner,
            collection_size,
        ) == (existing, balance, Err::<(Seq<u8>, Seq<u8>), ErrorCode>(
            ErrorCode::InvalidCollectionSize,
        )),
{
}

/// The record store: the persisted records of all owners, keyed by derived
/// storage address. The sole mutator of record existence and buffers.
pub struct RecordStore {
    pub entries: Vec<Entry>,
}

impl RecordStore {
    /// Every stored address is well formed and every record keeps its
    /// buffer sized to its capacity.
    pub open spec fn wf(self) -> bool {
        forall|i: int|
            0 <= i < self.entries@.len() ==> (#[trigger] self.entries@[i]).address.wf()
                && self.entries@[i].record.wf()
    }

    /// An empty store.
    pub fn new() -> (r: RecordStore)
        ensures
            r.wf(),
            r.entries@.len() == 0,
    {
        RecordStore { entries: Vec::new() }
    }

    /// The index of the first entry under `address`, if any.
    fn find(&self, address: &Address) -> (r: Option<usize>)
        ensures
            match r {
                Some(i) => {
                    &&& i < self.entries@.len()
                    &&& self.entries@[i as int].address@ == address@
                    &&& forall|j: int| 0 <= j < i ==> self.entries@[j].address@ != address@
                    &&& lookup(self.entries@, address@) == Some(self.entries@[i as int].record)
                },
                None => lookup(self.entries@, address@) is None,
            },
    {
        let mut i: usize = 0;
        proof {
            assert(self.entries@.skip(0) =~= self.entries@);
        }
        while i < self.entries.len()
            invariant
                i <= self.entries@.len(),
                forall|j: int| 0 <= j < i ==> self.entries@[j].address@ != address@,
                lookup(self.entries@, address@) == lookup(self.entries@.skip(i as int), address@),
            decreases self.entries@.len() - i,
        {
            if crate::addr::bytes_eq(&self.entries[i].address.bytes, &address.bytes) {
                proof {
                    lemma_lookup_skip_hit(self.entries@, i as int);
                }
                return Some(i);
            }
            proof {
                lemma_lookup_skip_step(self.entries@, address@, i as int);
            }
            i = i + 1;
        }
        proof {
            assert(self.entries@.skip(self.entries@.len() as int) =~= Seq::<Entry>::empty());
        }
        None
    }

    /// Whether a record stands at `address`.
    pub fn has_record(&self, address: &Address) -> (r: bool)
        ensures
            r == (lookup(self.entries@, address@) is Some),
    {
        self.find(address).is_some()
    }

    /// The record at `address`, or `RecordNotFound`.
    pub fn read(&self, address: &Address) -> (r: Result<&PDAPurchases, ErrorCode>)
        requires
            self.wf(),
        ensures
            match r {
                Ok(rec) => lookup(self.entries@, address@) == Some(*rec) && rec.wf(),
                Err(e) => e == ErrorCode::RecordNotFound && lookup(self.entries@, address@)
                    is None,
            },
    {
        match self.find(address) {
            Some(i) => Ok(&self.entries[i].record),
            None => Err(ErrorCode::RecordNotFound),
        }
    }

    /// Create the record for `owner` at `address`, sized to
    /// `collection_size` items and funded from `funder`. The size is
    /// validated on every call, whatever stands at the address; then the
    /// operation is idempotent when a record already stands there, and
    /// all-or-nothing otherwise.
    pub fn create(
        &mut self,
        address: &Address,
        owner: &Address,
        collection_size: i64,
        funder: &mut Funder,
    ) -> (r: Result<&PDAPurchases, ErrorCode>)
        requires
            old(self).wf(),
            address.wf(),
            owner.wf(),
        ensures
            final(self).wf(),
            ({
                let out = create_outcome(
                    lookup_view(old(self).entries@, address@),
                    old(funder).balance,
                    owner@,
                    collection_size as int,
                );
                &&& lookup_view(final(self).entries@, address@) == out.0
                &&& final(funder).balance == out.1
                &&& match r {
                    Ok(rec) => out.2 == Ok::<(Seq<u8>, Seq<u8>), ErrorCode>((rec.owner@, rec.data@))
                        && lookup(final(self).entries@, address@) == Some(*rec) && rec.wf(),
                    Err(e) => out.2 == Err::<(Seq<u8>, Seq<u8>), ErrorCode>(e)
                        && final(self).entries@ == old(self).entries@,
                }
                &&& forall|b: Seq<u8>| b != address@ ==> lookup(final(self).entries@, b) == lookup(
                    old(self).entries@,
                    b,
                )
            }),
    {
        let required = match crate::record::funding_requirement(collection_size) {
            Ok(v) => v,
            Err(e) => {
                return Err(e);
            },
        };
        match self.find(address) {
            Some(i) => Ok(&self.entries[i].record),
            None => {
                if funder.balance < required {
                    return Err(ErrorCode::InsufficientFunding);
                }
                funder.balance = funder.balance - required;
                let num_bytes: usize = ((collection_size + 7) / 8) as usize;
                let record = PDAPurchases {
                    owner: owner.duplicate(),
                    capacity: num_bytes,
                    data: crate::record::zeroed(num_bytes),
                };
                let entry = Entry { address: address.duplicate(), record };
                let ghost appended = entry;
                self.entries.push(entry);
                proof {
                    lemma_lookup_push(old(self).entries@, appended, address@);
                    assert forall|b: Seq<u8>| b != address@ implies lookup(self.entries@, b)
                        == lookup(old(self).entries@, b) by {
                        lemma_lookup_push(old(self).entries@, appended, b);
                    }
                }
                let n = self.entries.len() - 1;
                Ok(&self.entries[n].record)
            },
        }
    }

    /// Bind `address` to a fresh zeroed record of `capacity` bytes owned by
    /// `owner`. Skipped unchanged when the same owner is already bound;
    /// an address already bound to a different owner is a hard failure.
    pub fn init_record(&mut self, address: &Address, owner: &Address, capacity: usize) -> (r:
        Result<(), ErrorCode>)
        requires
            old(self).wf(),
            address.wf(),
            owner.wf(),
        ensures
            final(self).wf(),
            match lookup_view(old(self).entries@, address@) {
                None => r is Ok && lookup_view(final(self).entries@, address@) == Some(
                    (owner@, zero_bytes(capacity as nat)),
                ),
                Some(rv) => {
                    &&& final(self).entries@ == old(self).entries@
                    &&& rv.0 == owner@ ==> r is Ok
                    &&& rv.0 != owner@ ==> r == Err::<(), ErrorCode>(
                        ErrorCode::InvalidAddressDerivation,
                    )
                },
            },
            forall|b: Seq<u8>| b != address@ ==> lookup(final(self).entries@, b) == lookup(
                old(self).entries@,
                b,
            ),
    {
        match self.find(address) {
            Some(i) => {
                if crate::addr::bytes_eq(&self.entries[i].record.owner.bytes, &owner.bytes) {
                    Ok(())
                } else {
                    Err(ErrorCode::InvalidAddressDerivation)
                }
            },
            None => {
                let record = PDAPurchases {
                    owner: owner.duplicate(),
                    capacity,
                    data: crate::record::zeroed(capacity),
                };
                let entry = Entry { address: address.duplicate(), record };
                let ghost appended = entry;
                self.entries.push(entry);
                proof {
                    lemma_lookup_push(old(self).entries@, appended, address@);
                    assert forall|b: Seq<u8>| b != address@ implies lookup(self.entries@, b)
                        == lookup(old(self).entries@, b) by {
                        lemma_lookup_push(old(self).entries@, appended, b);
                    }
                }
                Ok(())
            },
        }
    }

    /// Overwrite the bitmask at `address` with `items` under the clamp
    /// policy of the record itself; `RecordNotFound` when no record stands
    /// there, and no other address is touched either way.
    pub fn write(&mut self, address: &Address, items: &Vec<u8>) -> (r: Result<(), ErrorCode>)
        requires
            old(self).wf(),
        ensures
            final(self).wf(),
            match r {
                Ok(()) => {
                    &&& lookup(old(self).entries@, address@) matches Some(rec)
                        && lookup_view(final(self).entries@, address@) == Some(
                        (rec.owner@, clamped_write(rec.data@, items@)),
                    )
                },
                Err(e) => {
                    &&& e == ErrorCode::RecordNotFound
                    &&& lookup(old(self).entries@, address@) is None
                    &&& final(self).entries@ == old(self).entries@
                },
            },
            forall|b: Seq<u8>| b != address@ ==> lookup(final(self).entries@, b) == lookup(
                old(self).entries@,
                b,
            ),
    {
        match self.find(address) {
            Some(i) => {
                let mut entry = self.entries.remove(i);
                entry.record.apply(items);
                let ghost updated = entry;
                self.entries.insert(i, entry);
                proof {
                    assert(self.entries@ =~= old(self).entries@.update(i as int, updated));
                    lemma_lookup_update(old(self).entries@, i as int, updated, address@);
                    assert forall|b: Seq<u8>| b != address@ implies lookup(self.entries@, b)
                        == lookup(old(self).entries@, b) by {
                        lemma_lookup_update(old(self).entries@, i as int, updated, b);
                    }
                }
                Ok(())
            },
            None => Err(ErrorCode::RecordNotFound),
        }
    }
}

} // verus!
