use vstd::prelude::*;

verus! {

/// Which of the two stores a record was looked for in.
#[derive(Clone, Copy, Debug, PartialEq, Eq, Structural)]
pub enum Resource {
    Listing,
    Bucket,
}

/// Every way a marketplace operation can be refused.
///
/// An operation that returns one of these has written nothing.
#[derive(Clone, Copy, Debug, PartialEq, Eq, Structural)]
pub enum ContractError {
    /// A transfer payload could not be encoded.
    Std,
    /// The caller is not the owner or claimant of the record.
    Unauthorized,
    /// A deposit in which every amount is zero.
    EmptyDeposit,
    /// A deposit that left the ledger as it was.
    NoChangeDetected,
    /// The listing has left the `BeingPrepared` status.
    AlreadyFinalized,
    /// The id is taken.
    IdAlreadyExists,
    /// The listing's purchase window has closed.
    Expired,
    /// The bucket's funds are not the listing's ask.
    FundsMismatch,
    /// No record under the requested key.
    NotFound { typ: Resource },
    /// The buyer has no bucket under the requested id.
    LoadBucketError,
    /// A finalize duration outside the accepted window.
    InvalidExpirationWindow,
    /// A refund asked for before the listing expired.
    NotYetExpired,
    /// A finalized listing without an expiration time.
    MissingExpiration,
    /// The listing is not in the `FinalizedReady` status.
    NotPurchasable,
    /// The buyer is not among the listing's allowed buyers.
    NotWhitelisted,
    /// The listing already has a claimant.
    AlreadyClaimed,
    /// Two entries of an ask name the same denomination.
    DuplicateAskDenom,
    /// The stored record is not the one the caller expected to replace.
    ConcurrentModification,
    /// An address that the environment did not accept.
    InvalidAddressFormat,
}

} // verus!
