//! The error taxonomy of the marketplace.
//!
//! Every operation either completes as a whole or aborts with one of these
//! errors, leaving the state exactly as it was.

use vstd::prelude::*;

verus! {

/// Why a marketplace operation was refused.
#[derive(Clone, Copy, Debug, PartialEq, Eq, Structural)]
pub enum MarketError {
    /// `add_listing` was given an empty token set.
    EmptyTokenSet,
    /// A listing with the same derived id already exists.
    DuplicateListing,
    /// The named listing is not in the listing store.
    NoSuchListing,
    /// The caller tried to place an offer on their own listing.
    SelfOffer,
    /// The caller already has a pending offer on this listing.
    DuplicateOffer,
    /// The attached deposit is below the listing's asking price.
    InsufficientDeposit,
    /// The caller is not the owner of the listing being settled.
    NotListingOwner,
    /// The permission names no beneficiary account.
    EmptyBeneficiaries,
    /// The permission names more than one beneficiary account;
    /// only a single winning bidder can be settled per call.
    MultiAcceptUnsupported,
    /// The beneficiary account has no offers at all.
    NoOffersForAccount,
    /// The beneficiary account has no offer on this listing.
    NoSuchOffer,
    /// A permission with this signature is already stored.
    DuplicateSignature,
    /// A pagination limit of zero was supplied.
    ZeroLimit,
}

} // verus!
