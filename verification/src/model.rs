//! The mathematical model of the marketplace state.
//!
//! [`ContractV`] is the view of the whole state: the three primary stores as
//! sequences in insertion order. Every derived index of the marketplace
//! (listings by owner, offers by bidder, offers by seller, permissions by
//! token) is a function of these sequences, so the indices can never drift
//! from the primary stores. [`wf`] is the well-formedness invariant that
//! every operation preserves.

use vstd::prelude::*;
use crate::ids::listing_id_of;
use crate::types::{ListingV, OfferV, PermissionV, SBTPermissionsContractMetadata, PayoutPolicy};

verus! {

/// View of the whole marketplace state.
pub ghost struct ContractV {
    pub owner_id: Seq<char>,
    pub metadata: SBTPermissionsContractMetadata,
    pub payout_policy: PayoutPolicy,
    /// The listing store, in creation order; never shrinks.
    pub listings: Seq<ListingV>,
    /// The offer store, in creation order; an offer leaves it only through
    /// a successful settlement.
    pub offers: Seq<OfferV>,
    /// The permission store, in creation order; never shrinks.
    pub permissions: Seq<PermissionV>,
}

/// The index of the first element of `s` satisfying `p`, or `-1`.
pub open spec fn first_where<T>(s: Seq<T>, p: spec_fn(T) -> bool) -> int
    decreases s.len(),
{
    if s.len() == 0 {
        -1
    } else if p(s[0]) {
        0
    } else if first_where(s.drop_first(), p) == -1 {
        -1
    } else {
        first_where(s.drop_first(), p) + 1
    }
}

/// What [`first_where`] returns: the first matching index, or `-1` when
/// nothing matches.
pub proof fn lemma_first_where<T>(s: Seq<T>, p: spec_fn(T) -> bool)
    ensures
        -1 <= first_where(s, p) < s.len(),
        first_where(s, p) >= 0 ==> p(s[first_where(s, p)]),
        forall|k: int| 0 <= k < first_where(s, p) ==> !p(s[k]),
        first_where(s, p) == -1 ==> forall|k: int| 0 <= k < s.len() ==> !p(s[k]),
    decreases s.len(),
{
    if s.len() > 0 && !p(s[0]) {
        lemma_first_where(s.drop_first(), p);
        assert(forall|k: int| 1 <= k < s.len() ==> s[k] == s.drop_first()[k - 1]);
    }
}

/// If `i` is a match and nothing before it is, then `i` is the first match.
pub proof fn lemma_first_where_at<T>(s: Seq<T>, p: spec_fn(T) -> bool, i: int)
    requires
        0 <= i < s.len(),
        p(s[i]),
        forall|k: int| 0 <= k < i ==> !p(s[k]),
    ensures
        first_where(s, p) == i,
    decreases s.len(),
{
    if i == 0 {
    } else {
        assert(!p(s[0]));
        assert(forall|k: int| 0 <= k < s.len() - 1 ==> s.drop_first()[k] == s[k + 1]);
        lemma_first_where_at(s.drop_first(), p, i - 1);
    }
}

/// How appending one element moves the first match.
pub proof fn lemma_first_where_push<T>(s: Seq<T>, p: spec_fn(T) -> bool, x: T)
    ensures
        first_where(s, p) >= 0 ==> first_where(s.push(x), p) == first_where(s, p),
        first_where(s, p) == -1 && p(x) ==> first_where(s.push(x), p) == s.len(),
        first_where(s, p) == -1 && !p(x) ==> first_where(s.push(x), p) == -1,
{
    lemma_first_where(s, p);
    lemma_first_where(s.push(x), p);
    let i = first_where(s, p);
    if i >= 0 {
        lemma_first_where_at(s.push(x), p, i);
    } else if p(x) {
        lemma_first_where_at(s.push(x), p, s.len() as int);
    } else {
        assert(forall|k: int| 0 <= k < s.push(x).len() ==> !p(s.push(x)[k]));
    }
}

/// The predicate that finds a listing by id.
pub open spec fn listing_pred(id: u64) -> spec_fn(ListingV) -> bool {
    |l: ListingV| l.id == id
}

/// Index of the listing with the given id, or `-1`.
pub open spec fn listing_index(ls: Seq<ListingV>, id: u64) -> int {
    first_where(ls, listing_pred(id))
}

/// Whether a listing with the given id is stored.
pub open spec fn has_listing(ls: Seq<ListingV>, id: u64) -> bool {
    listing_index(ls, id) >= 0
}

/// The listing with the given id (meaningful when [`has_listing`] holds).
pub open spec fn listing_at(ls: Seq<ListingV>, id: u64) -> ListingV {
    ls[listing_index(ls, id)]
}

/// The predicate that finds the offer of one bidder on one listing.
pub open spec fn offer_pred(listing_id: u64, account: Seq<char>) -> spec_fn(OfferV) -> bool {
    |o: OfferV| o.listing_id == listing_id && o.offering_account_id == account
}

/// Index of the offer by `account` on `listing_id`, or `-1`.
pub open spec fn offer_index(os: Seq<OfferV>, listing_id: u64, account: Seq<char>) -> int {
    first_where(os, offer_pred(listing_id, account))
}

/// Whether `account` has a pending offer on `listing_id`.
pub open spec fn has_offer(os: Seq<OfferV>, listing_id: u64, account: Seq<char>) -> bool {
    offer_index(os, listing_id, account) >= 0
}

/// The offer by `account` on `listing_id` (meaningful when [`has_offer`] holds).
pub open spec fn offer_at(os: Seq<OfferV>, listing_id: u64, account: Seq<char>) -> OfferV {
    os[offer_index(os, listing_id, account)]
}

/// Whether `account` has any pending offer at all (the bidder-keyed index
/// has an entry for it).
pub open spec fn account_has_offers(os: Seq<OfferV>, account: Seq<char>) -> bool {
    exists|k: int| 0 <= k < os.len() && os[k].offering_account_id == account
}

/// The predicate that finds a permission by signature.
pub open spec fn perm_pred(signature: Seq<char>) -> spec_fn(PermissionV) -> bool {
    |p: PermissionV| p.signature == signature
}

/// Index of the permission with the given signature, or `-1`.
pub open spec fn perm_index(ps: Seq<PermissionV>, signature: Seq<char>) -> int {
    first_where(ps, perm_pred(signature))
}

/// Whether a permission with the given signature is stored.
pub open spec fn has_permission(ps: Seq<PermissionV>, signature: Seq<char>) -> bool {
    perm_index(ps, signature) >= 0
}

/// The permission with the given signature (meaningful when
/// [`has_permission`] holds).
pub open spec fn perm_at(ps: Seq<PermissionV>, signature: Seq<char>) -> PermissionV {
    ps[perm_index(ps, signature)]
}

/// A single listing is well formed: a non-empty token set, and an id that
/// is exactly the one derived from its tokens and owner.
pub open spec fn listing_ok(l: ListingV) -> bool {
    l.tokens.len() > 0 && l.id == listing_id_of(l.tokens, l.account_id)
}

/// A single offer is well formed against the listing store: its listing
/// exists, it is not the listing owner's own bid, and a recorded price is
/// positive (a zero deposit is recorded as `None`).
pub open spec fn offer_ok(ls: Seq<ListingV>, o: OfferV) -> bool {
    &&& has_listing(ls, o.listing_id)
    &&& listing_at(ls, o.listing_id).account_id != o.offering_account_id
    &&& match o.offered_price {
        Some(p) => p > 0,
        None => true,
    }
}

/// Well-formedness of the whole state: ids, (listing, bidder) pairs and
/// signatures are unique in their stores, and every stored record is well
/// formed on its own.
pub open spec fn wf(m: ContractV) -> bool {
    &&& forall|i: int, j: int|
        0 <= i < j < m.listings.len() ==> m.listings[i].id != m.listings[j].id
    &&& forall|i: int| 0 <= i < m.listings.len() ==> listing_ok(#[trigger] m.listings[i])
    &&& forall|i: int, j: int|
        0 <= i < j < m.offers.len() ==> !(m.offers[i].listing_id == m.offers[j].listing_id
            && m.offers[i].offering_account_id == m.offers[j].offering_account_id)
    &&& forall|i: int| 0 <= i < m.offers.len() ==> offer_ok(m.listings, #[trigger] m.offers[i])
    &&& forall|i: int, j: int|
        0 <= i < j < m.permissions.len() ==> m.permissions[i].signature
            != m.permissions[j].signature
}

} // verus!
