use vstd::prelude::*;

verus! {

/// The failure kinds of the record store and the issuance coordinator.
///
/// Every failure aborts the enclosing operation; none is recovered or
/// retried inside this library.
#[derive(Clone, Copy, Debug, PartialEq, Eq, Structural)]
pub enum ErrorCode {
    /// A caller-supplied address does not match the recomputed derivation.
    InvalidAddressDerivation,
    /// The collection-size parameter is not positive or exceeds the maximum.
    InvalidCollectionSize,
    /// The funder's balance is below the computed funding requirement.
    InsufficientFunding,
    /// A read or mutation was requested at an address holding no record.
    RecordNotFound,
    /// The external issuance collaborator rejected or aborted the mint.
    IssuanceFailed,
}

} // verus!
