use vstd::prelude::*;

use crate::addr::Address;

verus! {

/// Byte overhead of the persisted record header.
pub const HEADER_BYTES: usize = 8;

/// Bytes holding the owner identity inside the persisted record.
pub const OWNER_BYTES: usize = 32;

/// Bytes of the explicit length prefix of the dynamic bitmask buffer.
pub const LEN_PREFIX_BYTES: usize = 4;

/// Largest collection size the store accepts.
pub const MAX_COLLECTION_SIZE: i64 = 2000;

/// Capacity of the fixed-size record form, in bitmask bytes.
pub const FIXED_CAPACITY: usize = 100;

/// How many bitmask bytes back a collection of `collection_size` items:
/// one bit per item, rounded up to whole bytes.
pub open spec fn bitmask_bytes(collection_size: int) -> int {
    (collection_size + 7) / 8
}

/// Total persisted size of a record backing a collection of
/// `collection_size` items: header, owner, length prefix, bitmask.
pub open spec fn record_space(collection_size: int) -> int {
    HEADER_BYTES + OWNER_BYTES + LEN_PREFIX_BYTES + bitmask_bytes(collection_size)
}

/// Whether a collection size is accepted: positive and at most the maximum.
pub open spec fn valid_collection_size(collection_size: int) -> bool {
    0 < collection_size <= MAX_COLLECTION_SIZE
}

/// An all-zero byte string of the given length.
pub open spec fn zero_bytes(n: nat) -> Seq<u8> {
    Seq::new(n, |i: int| 0u8)
}

/// The result of the length-clamped overwrite: the first
/// `min(data.len(), items.len())` bytes come from `items`, the rest keep
/// their old value, and the length never changes.
pub open spec fn clamped_write(data: Seq<u8>, items: Seq<u8>) -> Seq<u8> {
    Seq::new(data.len(), |i: int| if i < items.len() { items[i] } else { data[i] })
}

/// Law: the clamp. After `clamped_write`, the prefix up to
/// `min(capacity, items.len())` equals `items`, every byte past it is
/// unchanged, and the buffer keeps its length. Oversized input is
/// truncated, undersized input leaves the tail alone; neither is an error.
pub proof fn lemma_clamp(data: Seq<u8>, items: Seq<u8>)
    ensures
        clamped_write(data, items).len() == data.len(),
        forall|i: int|
            0 <= i < data.len() && i < items.len() ==> clamped_write(data, items)[i] == items[i],
        forall|i: int|
            items.len() <= i < data.len() ==> clamped_write(data, items)[i] == data[i],
{
}

/// The persisted entity at a storage address: an owner identity and a
/// purchase bitmask of fixed capacity. Index `i` set means item `i` was
/// purchased. The capacity is fixed at creation and never resized.
pub struct PDAPurchases {
    pub owner: Address,
    pub capacity: usize,
    pub data: Vec<u8>,
}

impl PDAPurchases {
    /// The buffer length equals the capacity for the record's lifetime.
    pub open spec fn wf(self) -> bool {
        &&& self.owner.wf()
        &&& self.data@.len() == self.capacity
    }

    /// Overwrite the first `min(capacity, items.len())` bytes of the
    /// bitmask with `items`; bytes of `items` beyond the capacity are
    /// silently dropped, bytes of the bitmask beyond `items.len()` are left
    /// unchanged. Always starts at offset 0; never fails.
    pub fn apply(&mut self, items: &Vec<u8>)
        ensures
            final(self).owner == old(self).owner,
            final(self).capacity == old(self).capacity,
            final(self).data@ == clamped_write(old(self).data@, items@),
    {
        let n: usize = if self.data.len() < items.len() {
            self.data.len()
        } else {
            items.len()
        };
        let mut i: usize = 0;
        while i < n
            invariant
                i <= n,
                n <= old(self).data@.len(),
                n <= items@.len(),
                n == if old(self).data@.len() < items@.len() {
                    old(self).data@.len() as int
                } else {
                    items@.len() as int
                },
                self.owner == old(self).owner,
                self.capacity == old(self).capacity,
                self.data@.len() == old(self).data@.len(),
                forall|j: int| 0 <= j < i ==> self.data@[j] == items@[j],
                forall|j: int| i <= j < self.data@.len() ==> self.data@[j] == old(self).data@[j],
            decreases n - i,
        {
            let b = items[i];
            self.data.set(i, b);
            i = i + 1;
        }
        proof {
            assert(self.data@ =~= clamped_write(old(self).data@, items@));
        }
    }

    /// A copy of the current bitmask.
    pub fn data_copy(&self) -> (r: Vec<u8>)
        ensures
            r@ == self.data@,
    {
        crate::addr::copy_bytes(&self.data)
    }
}

/// An all-zero byte buffer of length `n`.
pub fn zeroed(n: usize) -> (r: Vec<u8>)
    ensures
        r@ == zero_bytes(n as nat),
{
    let mut out: Vec<u8> = Vec::new();
    let mut i: usize = 0;
    while i < n
        invariant
            i <= n,
            out@ == zero_bytes(i as nat),
        decreases n - i,
    {
        out.push(0u8);
        i = i + 1;
        proof {
            assert(out@ =~= zero_bytes(i as nat));
        }
    }
    out
}

/// The source of creation funding: a balance that is read-checked and then
/// debited exactly once per successful creation.
pub struct Funder {
    pub balance: u64,
}

/// The minimum balance that backs a record of `space` persisted bytes for
/// its lifetime. A function of the byte size alone.
pub uninterp spec fn min_balance_of(space: u64) -> u64;

/// Relies on solana_program's Rent::minimum_balance under the default rent
/// configuration, whose parameters are compile-time constants: the
/// requirement depends on the persisted byte size alone.
#[verifier::external_body]
fn minimum_balance(space: u64) -> (r: u64)
    ensures
        r == min_balance_of(space),
{
    solana_program::rent::Rent::default().minimum_balance(space as usize)
}

/// The funding requirement for a record backing `collection_size` items,
/// or `InvalidCollectionSize` when the size is out of policy.
pub fn funding_requirement(collection_size: i64) -> (r: Result<u64, crate::errors::ErrorCode>)
    ensures
        valid_collection_size(collection_size as int) ==> r == Ok::<u64, crate::errors::ErrorCode>(
            min_balance_of(record_space(collection_size as int) as u64),
        ),
        !valid_collection_size(collection_size as int) ==> r == Err::<u64, crate::errors::ErrorCode>(
            crate::errors::ErrorCode::InvalidCollectionSize,
        ),
{
    if collection_size <= 0 || collection_size > MAX_COLLECTION_SIZE {
        return Err(crate::errors::ErrorCode::InvalidCollectionSize);
    }
    let num_bytes: i64 = (collection_size + 7) / 8;
    let space: u64 = (HEADER_BYTES as i64 + OWNER_BYTES as i64 + LEN_PREFIX_BYTES as i64
        + num_bytes) as u64;
    assert(space == record_space(collection_size as int));
    Ok(minimum_balance(space))
}

} // verus!
