use vstd::prelude::*;

use crate::errors::ErrorCode;

verus! {

/// Number of bytes in an owner identity, a program identity, or a derived
/// storage address.
pub const ADDRESS_BYTES: usize = 32;

/// A 32-byte identifier: an owner identity, a program identity, or a
/// derived storage address.
pub struct Address {
    pub bytes: Vec<u8>,
}

impl View for Address {
    type V = Seq<u8>;

    open spec fn view(&self) -> Seq<u8> {
        self.bytes@
    }
}

impl Address {
    /// An address is well formed when it holds exactly 32 bytes.
    pub open spec fn wf(self) -> bool {
        self.bytes@.len() == ADDRESS_BYTES
    }

    /// Wrap raw bytes as an address; rejects any length other than 32.
    pub fn from_bytes(bytes: Vec<u8>) -> (r: Option<Address>)
        ensures
            bytes@.len() == ADDRESS_BYTES ==> (r matches Some(a) && a@ == bytes@ && a.wf()),
            bytes@.len() != ADDRESS_BYTES ==> r is None,
    {
        if bytes.len() == ADDRESS_BYTES {
            Some(Address { bytes })
        } else {
            None
        }
    }

    /// A fresh address holding the same 32 bytes.
    pub fn duplicate(&self) -> (r: Address)
        ensures
            r@ == self@,
    {
        Address { bytes: copy_bytes(&self.bytes) }
    }
}

/// A fresh byte vector holding the same bytes.
pub fn copy_bytes(src: &Vec<u8>) -> (r: Vec<u8>)
    ensures
        r@ == src@,
{
    let mut out: Vec<u8> = Vec::new();
    let mut i: usize = 0;
    while i < src.len()
        invariant
            i <= src@.len(),
            out@ == src@.subrange(0, i as int),
        decreases src@.len() - i,
    {
        out.push(src[i]);
        i = i + 1;
        proof {
            assert(out@ =~= src@.subrange(0, i as int));
        }
    }
    proof {
        assert(out@ =~= src@);
    }
    out
}

/// Whether two byte strings are equal, byte for byte.
pub fn bytes_eq(a: &Vec<u8>, b: &Vec<u8>) -> (r: bool)
    ensures
        r == (a@ == b@),
{
    if a.len() != b.len() {
        return false;
    }
    let mut i: usize = 0;
    while i < a.len()
        invariant
            i <= a@.len(),
            a@.len() == b@.len(),
            forall|j: int| 0 <= j < i ==> a@[j] == b@[j],
        decreases a@.len() - i,
    {
        if a[i] != b[i] {
            return false;
        }
        i = i + 1;
    }
    proof {
        assert(a@ =~= b@);
    }
    true
}

/// What the deterministic address derivation yields for a program identity,
/// a namespace tag and an owner identity: the derived 32-byte address and
/// its canonicalization bump, or nothing in the statistically improbable
/// event that no bump lands the address in the canonical address space.
pub uninterp spec fn derived(program: Seq<u8>, tag: Seq<u8>, owner: Seq<u8>) -> Option<(Seq<u8>, u8)>;

/// Relies on solana_program's Pubkey::try_find_program_address: the search
/// depends only on the seed bytes and the program identity, never panics,
/// and a returned address always holds 32 bytes.
#[verifier::external_body]
fn try_derive(program: &Address, tag: &Vec<u8>, owner: &Address) -> (r: Option<(Address, u8)>)
    requires
        program.wf(),
        owner.wf(),
    ensures
        match r {
            Some(p) => derived(program@, tag@, owner@) == Some((p.0@, p.1)) && p.0.wf(),
            None => derived(program@, tag@, owner@) is None,
        },
{
    let mut id = [0u8; 32];
    id.copy_from_slice(program.bytes.as_slice());
    let pid = solana_program::pubkey::Pubkey::new_from_array(id);
    let found = solana_program::pubkey::Pubkey::try_find_program_address(
        &[tag.as_slice(), owner.bytes.as_slice()],
        &pid,
    );
    found.map(|(a, bump)| (Address { bytes: a.to_bytes().to_vec() }, bump))
}

/// Derive the storage address and canonicalization bump for an owner under
/// a namespace tag. Pure and deterministic: repeated calls on the same
/// inputs yield the same result.
pub fn derive(program: &Address, tag: &Vec<u8>, owner: &Address) -> (r: Option<(Address, u8)>)
    requires
        program.wf(),
        owner.wf(),
    ensures
        match r {
            Some(p) => derived(program@, tag@, owner@) == Some((p.0@, p.1)) && p.0.wf(),
            None => derived(program@, tag@, owner@) is None,
        },
{
    try_derive(program, tag, owner)
}

/// Law: address derivation is pure and stable. Any two results standing in
/// the derivation relation for the same program, tag and owner are
/// identical.
pub proof fn lemma_derive_stable(
    program: Seq<u8>,
    tag: Seq<u8>,
    owner: Seq<u8>,
    r1: Option<(Seq<u8>, u8)>,
    r2: Option<(Seq<u8>, u8)>,
)
    requires
        r1 == derived(program, tag, owner),
        r2 == derived(program, tag, owner),
    ensures
        r1 == r2,
{
}

/// An authorization token for the derived address: proof that the caller
/// controls the derivation `(tag, owner)` with its canonicalization bump.
/// Constructed only by `verify_derivation`, never persisted.
pub struct AuthToken {
    pub tag: Vec<u8>,
    pub owner: Address,
    pub bump: u8,
}

/// Recompute the derivation and compare it byte for byte against a
/// caller-supplied address. A mismatch, or a failed derivation search, is a
/// hard validation failure and is never silently corrected.
pub fn verify_derivation(
    program: &Address,
    tag: &Vec<u8>,
    owner: &Address,
    claimed: &Address,
) -> (r: Result<AuthToken, ErrorCode>)
    requires
        program.wf(),
        owner.wf(),
    ensures
        match r {
            Ok(tok) => {
                &&& derived(program@, tag@, owner@) matches Some(p) && p.0 == claimed@
                    && tok.bump == p.1
                &&& tok.tag@ == tag@
                &&& tok.owner@ == owner@
            },
            Err(e) => {
                &&& e == ErrorCode::InvalidAddressDerivation
                &&& !(derived(program@, tag@, owner@) matches Some(p) && p.0 == claimed@)
            },
        },
{
    match derive(program, tag, owner) {
        Some((address, bump)) => {
            if bytes_eq(&address.bytes, &claimed.bytes) {
                Ok(AuthToken { tag: copy_bytes(tag), owner: owner.duplicate(), bump })
            } else {
                Err(ErrorCode::InvalidAddressDerivation)
            }
        },
        None => Err(ErrorCode::InvalidAddressDerivation),
    }
}

} // verus!
