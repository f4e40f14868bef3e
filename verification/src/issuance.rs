use vstd::prelude::*;
use vstd::string::StringExecFns;

use crate::addr::Address;

verus! {

/// One creator entry of the issuance metadata: an address, whether it is
/// verified, and its share of royalties in percent.
pub struct CreatorEntry {
    pub address: Address,
    pub verified: bool,
    pub share: u8,
}

/// An optional binding of the issued asset to a collection.
pub struct CollectionRef {
    pub key: Address,
    pub verified: bool,
}

/// The structural token-standard tag of the issued asset.
pub enum AssetStandard {
    NonFungible,
}

/// The metadata handed to the external issuance collaborator. Immutable
/// once minted, except for the collection's verified flag, which is out of
/// this library's scope.
pub struct AssetMetadata {
    pub name: String,
    pub symbol: String,
    pub uri: String,
    pub royalty_basis_points: u16,
    pub primary_sale_happened: bool,
    pub is_mutable: bool,
    pub edition_nonce: Option<u8>,
    pub standard: Option<AssetStandard>,
    pub collection: Option<CollectionRef>,
    pub creators: Vec<CreatorEntry>,
}

/// Construct the issuance metadata for `payer`: the policy-defined name,
/// symbol, content URI and royalty, a single verified creator entry for
/// the payer with a 100% share, a mutable asset of the non-fungible
/// standard, and the optional collection binding.
pub fn build_metadata(payer: &Address, collection: Option<CollectionRef>) -> (r: AssetMetadata)
    ensures
        r.name@ == "My NFT"@,
        r.symbol@ == "NFT"@,
        r.uri@ == "https://example.com/nft/metadata.json"@,
        r.royalty_basis_points == 500,
        r.primary_sale_happened == false,
        r.is_mutable == true,
        r.edition_nonce == Some(1u8),
        r.standard is Some && r.standard->0 is NonFungible,
        r.collection == collection,
        r.creators@.len() == 1,
        r.creators@[0].address@ == payer@,
        r.creators@[0].verified == true,
        r.creators@[0].share == 100,
{
    let mut creators: Vec<CreatorEntry> = Vec::new();
    creators.push(CreatorEntry { address: payer.duplicate(), verified: true, share: 100 });
    AssetMetadata {
        name: String::from_str("My NFT"),
        symbol: String::from_str("NFT"),
        uri: String::from_str("https://example.com/nft/metadata.json"),
        royalty_basis_points: 500,
        primary_sale_happened: false,
        is_mutable: true,
        edition_nonce: Some(1u8),
        standard: Some(AssetStandard::NonFungible),
        collection,
        creators,
    }
}

/// Whether an ownership-representing asset has been issued for an owner:
/// an explicit two-variant value, never a nullable handle.
pub enum IssuanceState {
    NotIssued,
    Issued(Address),
}

impl View for IssuanceState {
    type V = Option<Seq<u8>>;

    open spec fn view(&self) -> Option<Seq<u8>> {
        match self {
            IssuanceState::NotIssued => None,
            IssuanceState::Issued(a) => Some(a@),
        }
    }
}

impl IssuanceState {
    /// An issued asset identifier is a well-formed 32-byte address.
    pub open spec fn wf(self) -> bool {
        match self {
            IssuanceState::NotIssued => true,
            IssuanceState::Issued(a) => a.wf(),
        }
    }
}

/// The asset identifier that the issuance substrate assigns to the leaf at
/// `leaf_index` of the tree at `tree`: a reproducible function of the two,
/// so any later reader can re-derive it without re-invoking issuance.
pub uninterp spec fn asset_id_of(tree: Seq<u8>, leaf_index: u64) -> Seq<u8>;

/// Relies on mpl_bubblegum's get_asset_id: the identifier is derived from
/// the tree address and the leaf index alone, and always holds 32 bytes.
/// The underlying derivation search succeeds except in a statistically
/// improbable case, in which the callee does not return.
#[verifier::external_body]
fn asset_id(tree: &Address, leaf_index: u64) -> (r: Address)
    requires
        tree.wf(),
    ensures
        r@ == asset_id_of(tree@, leaf_index),
        r.wf(),
{
    let mut id = [0u8; 32];
    id.copy_from_slice(tree.bytes.as_slice());
    let key = solana_program::pubkey::Pubkey::new_from_array(id);
    let asset = mpl_bubblegum::utils::get_asset_id(&key, leaf_index);
    Address { bytes: asset.to_bytes().to_vec() }
}

/// Derive the asset identifier for a leaf of the issuance tree.
pub fn derive_asset_id(tree: &Address, leaf_index: u64) -> (r: Address)
    requires
        tree.wf(),
    ensures
        r@ == asset_id_of(tree@, leaf_index),
        r.wf(),
{
    asset_id(tree, leaf_index)
}

/// The issuance state after one coordination step: an already-issued asset
/// is kept, an absent one is bound to the freshly derived identifier.
pub open spec fn issued_after(state: Option<Seq<u8>>, asset: Seq<u8>) -> Option<Seq<u8>> {
    if state is Some {
        state
    } else {
        Some(asset)
    }
}

/// Whether one coordination step invokes the external issuance
/// collaborator: only when no asset exists yet.
pub open spec fn invokes_mint(state: Option<Seq<u8>>) -> bool {
    state is None
}

/// Law: exactly-once issuance. Of two sequential coordination steps for
/// the same owner, at most one invokes the external issuance collaborator:
/// whatever the first step does, the second finds an asset and skips.
pub proof fn lemma_issue_at_most_once(state: Option<Seq<u8>>, a1: Seq<u8>, a2: Seq<u8>)
    ensures
        !(invokes_mint(state) && invokes_mint(issued_after(state, a1))),
        invokes_mint(issued_after(state, a1)) ==> !invokes_mint(state),
{
}

/// One step of the issuance coordinator for an owner: check exactly once
/// whether an asset exists, and if none does, bind the identifier derived
/// from the tree and the leaf index. Returns the new state and whether the
/// external issuance collaborator is invoked in this step — the host
/// performs that call around the decision and aborts the whole operation
/// if it is rejected.
pub fn ensure_issued(state: IssuanceState, tree: &Address, leaf_index: u64) -> (r: (
    IssuanceState,
    bool,
))
    requires
        tree.wf(),
        state.wf(),
    ensures
        r.0@ == issued_after(state@, asset_id_of(tree@, leaf_index)),
        r.1 == invokes_mint(state@),
        r.0.wf(),
        r.0 is Issued,
{
    match state {
        IssuanceState::Issued(a) => (IssuanceState::Issued(a), false),
        IssuanceState::NotIssued => {
            let id = derive_asset_id(tree, leaf_index);
            (IssuanceState::Issued(id), true)
        },
    }
}

} // verus!
