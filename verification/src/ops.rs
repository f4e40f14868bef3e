use vstd::prelude::*;

use crate::addr::Address;
use crate::addr::derived;
use crate::errors::ErrorCode;
use crate::issuance::IssuanceState;
use crate::issuance::asset_id_of;
use crate::issuance::ensure_issued;
use crate::issuance::invokes_mint;
use crate::issuance::issued_after;
use crate::record::FIXED_CAPACITY;
use crate::record::Funder;
use crate::record::bitmask_bytes;
use crate::record::clamped_write;
use crate::record::valid_collection_size;
use crate::record::zero_bytes;
use crate::store::RecordStore;

verus! {

/// Create the zeroed record for an externally known asset identifier, at
/// the address derived from the identifier itself, bound to that
/// identifier as its owner. Idempotent for the same identifier; an address
/// already bound to a different asset is a hard failure.
pub fn initialize(
    store: &mut RecordStore,
    program: &Address,
    tag: &Vec<u8>,
    cnft_address: &Address,
) -> (r: Result<(), ErrorCode>)
    requires
        old(store).wf(),
        program.wf(),
        cnft_address.wf(),
    ensures
        final(store).wf(),
        match r {
            Ok(()) => {
                &&& derived(program@, tag@, cnft_address@) matches Some(pd)
                    && crate::store::lookup_view(final(store).entries@, pd.0) matches Some(rv)
                    && rv.0 == cnft_address@ && (crate::store::lookup_view(
                    old(store).entries@,
                    pd.0,
                ) is None ==> rv.1 == zero_bytes(FIXED_CAPACITY as nat))
                &&& forall|b: Seq<u8>|
                    b != derived(program@, tag@, cnft_address@)->Some_0.0
                        ==> crate::store::lookup(final(store).entries@, b) == crate::store::lookup(
                        old(store).entries@,
                        b,
                    )
            },
            Err(e) => {
                &&& final(store).entries@ == old(store).entries@
                &&& e == ErrorCode::InvalidAddressDerivation
                &&& (derived(program@, tag@, cnft_address@) is None || (derived(
                    program@,
                    tag@,
                    cnft_address@,
                ) matches Some(pd) && crate::store::lookup_view(old(store).entries@, pd.0)
                    matches Some(rv) && rv.0 != cnft_address@))
            },
        },
{
    let address = match crate::addr::derive(program, tag, cnft_address) {
        Some(p) => p.0,
        None => {
            return Err(ErrorCode::InvalidAddressDerivation);
        },
    };
    store.init_record(&address, cnft_address, FIXED_CAPACITY)
}

/// A copy of the current bitmask of the record standing at the address
/// derived for `owner`.
pub fn fetch_data(
    store: &RecordStore,
    program: &Address,
    tag: &Vec<u8>,
    owner: &Address,
) -> (r: Result<Vec<u8>, ErrorCode>)
    requires
        store.wf(),
        program.wf(),
        owner.wf(),
    ensures
        match r {
            Ok(v) => derived(program@, tag@, owner@) matches Some(pd)
                && crate::store::lookup_view(store.entries@, pd.0) matches Some(rv) && v@ == rv.1,
            Err(e) => {
                &&& derived(program@, tag@, owner@) is None ==> e
                    == ErrorCode::InvalidAddressDerivation
                &&& derived(program@, tag@, owner@) matches Some(pd) ==> (
                crate::store::lookup_view(store.entries@, pd.0) is None && e
                    == ErrorCode::RecordNotFound)
            },
        },
{
    let address = match crate::addr::derive(program, tag, owner) {
        Some(p) => p.0,
        None => {
            return Err(ErrorCode::InvalidAddressDerivation);
        },
    };
    match store.read(&address) {
        Ok(rec) => Ok(rec.data_copy()),
        Err(e) => Err(e),
    }
}

/// Apply `items` to the bitmask of the record standing at the address
/// derived for `owner`, under the clamp policy: oversized input is
/// truncated, the tail beyond the input is left unchanged.
pub fn add_purchase(
    store: &mut RecordStore,
    program: &Address,
    tag: &Vec<u8>,
    owner: &Address,
    items: &Vec<u8>,
) -> (r: Result<(), ErrorCode>)
    requires
        old(store).wf(),
        program.wf(),
        owner.wf(),
    ensures
        final(store).wf(),
        match r {
            Ok(()) => {
                &&& derived(program@, tag@, owner@) matches Some(pd) && crate::store::lookup(
                    old(store).entries@,
                    pd.0,
                ) matches Some(rec) && crate::store::lookup_view(final(store).entries@, pd.0)
                    == Some((rec.owner@, clamped_write(rec.data@, items@)))
                &&& forall|b: Seq<u8>|
                    b != derived(program@, tag@, owner@)->Some_0.0 ==> crate::store::lookup(
                        final(store).entries@,
                        b,
                    ) == crate::store::lookup(old(store).entries@, b)
            },
            Err(e) => {
                &&& final(store).entries@ == old(store).entries@
                &&& derived(program@, tag@, owner@) is None ==> e
                    == ErrorCode::InvalidAddressDerivation
                &&& derived(program@, tag@, owner@) matches Some(pd) ==> (crate::store::lookup(
                    old(store).entries@,
                    pd.0,
                ) is None && e == ErrorCode::RecordNotFound)
            },
        },
{
    let address = match crate::addr::derive(program, tag, owner) {
        Some(p) => p.0,
        None => {
            return Err(ErrorCode::InvalidAddressDerivation);
        },
    };
    store.write(&address, items)
}

/// Mint the ownership asset for a collection and create its purchase
/// record in one operation: validate the collection size, check and debit
/// the funding requirement, validate the caller-supplied record address
/// against the derivation for `collection_address`, and — once the host
/// reports the external issuance call accepted — bind the record, zeroed
/// and owned by the asset identifier derived from the tree and leaf index.
///
/// The collection size and the claimed address are validated on every
/// call, whatever already stands at the address: an out-of-policy size or
/// a derivation mismatch is a hard failure, never silently corrected.
/// Only then is the operation idempotent: when a record already stands at
/// the validated address, the rest is skipped and the bound asset
/// identifier is returned unchanged, with no re-funding and no
/// re-zeroing. Otherwise it is all-or-nothing: any failure, including a
/// rejected mint, leaves the store and the funder untouched.
pub fn mint_and_initialize_cnft(
    store: &mut RecordStore,
    program: &Address,
    tag: &Vec<u8>,
    collection_address: &Address,
    claimed_pda: &Address,
    funder: &mut Funder,
    collection_size: i64,
    tree: &Address,
    leaf_index: u64,
    mint_accepted: bool,
) -> (r: Result<Address, ErrorCode>)
    requires
        old(store).wf(),
        program.wf(),
        collection_address.wf(),
        claimed_pda.wf(),
        tree.wf(),
    ensures
        final(store).wf(),
        ({
            let existing = crate::store::lookup_view(old(store).entries@, claimed_pda@);
            let req = crate::record::min_balance_of(
                crate::record::record_space(collection_size as int) as u64,
            );
            let derivation_ok = derived(program@, tag@, collection_address@) matches Some(p)
                && p.0 == claimed_pda@;
            match r {
                Ok(asset) => {
                    &&& asset.wf()
                    &&& valid_collection_size(collection_size as int)
                    &&& derivation_ok
                    &&& existing matches Some(rv) ==> (asset@ == rv.0 && final(store).entries@
                        == old(store).entries@ && final(funder).balance == old(funder).balance)
                    &&& existing is None ==> {
                        &&& old(funder).balance >= req
                        &&& mint_accepted
                        &&& asset@ == asset_id_of(tree@, leaf_index)
                        &&& crate::store::lookup_view(final(store).entries@, claimed_pda@)
                            == Some(
                            (
                                asset_id_of(tree@, leaf_index),
                                zero_bytes(bitmask_bytes(collection_size as int) as nat),
                            ),
                        )
                        &&& final(funder).balance == old(funder).balance - req
                        &&& forall|b: Seq<u8>| b != claimed_pda@ ==> crate::store::lookup(
                            final(store).entries@,
                            b,
                        ) == crate::store::lookup(old(store).entries@, b)
                    }
                },
                Err(e) => {
                    &&& final(store).entries@ == old(store).entries@
                    &&& final(funder).balance == old(funder).balance
                    &&& if !valid_collection_size(collection_size as int) {
                        e == ErrorCode::InvalidCollectionSize
                    } else if !derivation_ok {
                        e == ErrorCode::InvalidAddressDerivation
                    } else if existing is None && old(funder).balance < req {
                        e == ErrorCode::InsufficientFunding
                    } else {
                        existing is None && !mint_accepted && e == ErrorCode::IssuanceFailed
                    }
                },
            }
        }),
{
    let required = match crate::record::funding_requirement(collection_size) {
        Ok(v) => v,
        Err(e) => {
            return Err(e);
        },
    };
    match crate::addr::verify_derivation(program, tag, collection_address, claimed_pda) {
        Ok(_) => {},
        Err(e) => {
            return Err(e);
        },
    }
    match store.read(claimed_pda) {
        Ok(rec) => {
            return Ok(rec.owner.duplicate());
        },
        Err(_) => {},
    }
    if funder.balance < required {
        return Err(ErrorCode::InsufficientFunding);
    }
    if !mint_accepted {
        return Err(ErrorCode::IssuanceFailed);
    }
    funder.balance = funder.balance - required;
    let asset = crate::issuance::derive_asset_id(tree, leaf_index);
    let num_bytes: usize = ((collection_size + 7) / 8) as usize;
    match store.init_record(claimed_pda, &asset, num_bytes) {
        Ok(()) => Ok(asset),
        Err(e) => {
            proof {
                assert(false);
            }
            Err(e)
        },
    }
}

/// One purchase for `owner`: drive issuance exactly once if no asset
/// exists yet, locate or lazily create and fund the record at the derived
/// address, and apply `items` to its bitmask under the clamp policy.
///
/// `mint_accepted` is the host's report of the external issuance call: it
/// matters only when issuance is actually invoked, and a rejected mint
/// aborts the whole operation with no local state change. Returns the new
/// issuance state and whether the collaborator was invoked.
pub fn purchase_items(
    store: &mut RecordStore,
    program: &Address,
    tag: &Vec<u8>,
    owner: &Address,
    state: IssuanceState,
    tree: &Address,
    leaf_index: u64,
    funder: &mut Funder,
    collection_size: i64,
    mint_accepted: bool,
    items: &Vec<u8>,
) -> (r: Result<(IssuanceState, bool), ErrorCode>)
    requires
        old(store).wf(),
        program.wf(),
        owner.wf(),
        tree.wf(),
        state.wf(),
    ensures
        final(store).wf(),
        match r {
            Ok(p) => {
                &&& p.0@ == issued_after(state@, asset_id_of(tree@, leaf_index))
                &&& p.0.wf()
                &&& p.0 is Issued
                &&& p.1 == invokes_mint(state@)
                &&& invokes_mint(state@) ==> mint_accepted
                &&& derived(program@, tag@, owner@) matches Some(pd) && {
                    let out = crate::store::create_outcome(
                        crate::store::lookup_view(old(store).entries@, pd.0),
                        old(funder).balance,
                        owner@,
                        collection_size as int,
                    );
                    &&& out.2 is Ok
                    &&& final(funder).balance == out.1
                    &&& crate::store::lookup_view(final(store).entries@, pd.0) == Some(
                        (out.2->Ok_0.0, clamped_write(out.2->Ok_0.1, items@)),
                    )
                    &&& forall|b: Seq<u8>| b != pd.0 ==> crate::store::lookup(
                        final(store).entries@,
                        b,
                    ) == crate::store::lookup(old(store).entries@, b)
                }
            },
            Err(e) => {
                &&& final(store).entries@ == old(store).entries@
                &&& final(funder).balance == old(funder).balance
                &&& if invokes_mint(state@) && !mint_accepted {
                    e == ErrorCode::IssuanceFailed
                } else if derived(program@, tag@, owner@) is None {
                    e == ErrorCode::InvalidAddressDerivation
                } else {
                    crate::store::create_outcome(
                        crate::store::lookup_view(
                            old(store).entries@,
                            derived(program@, tag@, owner@)->Some_0.0,
                        ),
                        old(funder).balance,
                        owner@,
                        collection_size as int,
                    ).2 == Err::<(Seq<u8>, Seq<u8>), ErrorCode>(e)
                }
            },
        },
{
    let needs_mint = match &state {
        IssuanceState::NotIssued => true,
        IssuanceState::Issued(_) => false,
    };
    if needs_mint && !mint_accepted {
        return Err(ErrorCode::IssuanceFailed);
    }
    let (new_state, invoked) = ensure_issued(state, tree, leaf_index);
    let address = match crate::addr::derive(program, tag, owner) {
        Some(p) => p.0,
        None => {
            return Err(ErrorCode::InvalidAddressDerivation);
        },
    };
    match store.create(&address, owner, collection_size, funder) {
        Ok(_) => (),
        Err(e) => {
            return Err(e);
        },
    }
    match store.write(&address, items) {
        Ok(()) => Ok((new_state, invoked)),
        Err(e) => {
            proof {
                assert(false);
            }
            Err(e)
        },
    }
}

} // verus!
