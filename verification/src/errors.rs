use vstd::prelude::*;

verus! {

/// Marker used by host-facing responses to say whether an operation took
/// effect.
#[derive(Clone, Copy, Debug, PartialEq, Eq, Structural)]
pub enum ResponseStatus {
    Success,
    Failure,
}

/// Every way an operation of the marketplace engine can be refused.  Each
/// operation's contract says exactly on which inputs each variant comes back.
#[derive(Clone, Copy, Debug, PartialEq, Eq, Structural)]
pub enum FardelError {
    /// A public id that resolves to no listing, or a cancellation with no
    /// pending request to cancel.
    NotFound,
    /// The actor lacks the required role: not the owner for seal/hide, not
    /// the operator for remove, or blocked by the listing owner.
    Unauthorized,
    /// A bound on the listing body was violated at creation.
    InvalidInput,
    /// The amount paid differs from the listing price.
    PaymentMismatch,
    /// The purchaser already holds this listing's payload.
    AlreadyUnpacked,
    /// The purchaser already has a pending request for this listing.
    AlreadyPending,
    /// The listing is sealed, or its deadline has passed and it was sealed
    /// on this access.
    Sealed,
    /// Every sellable unit is reserved or sold.
    SoldOut,
}

} // verus!
