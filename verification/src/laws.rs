//! The marketplace's laws: properties that relate several operations,
//! proved once over the mathematical model. Each executable operation's
//! contract ties it to the spec functions these laws speak of.

use vstd::prelude::*;
use crate::errors::MarketError;
use crate::listings::{add_listing_err, add_listing_next, added_listing};
use crate::model::{
    has_listing, has_offer, lemma_first_where, lemma_first_where_push, listing_at, listing_pred,
    offer_index, offer_pred, perm_at, perm_index, perm_pred, wf, ContractV,
};
use crate::ids::listing_id_of;
use crate::offers::{add_offer_err, add_offer_next, added_offer, seller_offers};
use crate::permissions::{
    create_permission_err, create_permission_next, lemma_token_sigs_contains, permissions_page,
    sbt_permission_sigs, sbt_permissions_err, token_sigs, wildcard, wildcard_key,
};
use crate::settlement::accept_offer_err;
use crate::settlement::accept_offer_next;
use crate::types::{OfferV, PermissionV, TokenLocatorV};

verus! {

/// Listing the identical ordered token set twice under the same owner:
/// the second attempt fails `DuplicateListing`, whatever either price was.
pub proof fn law_duplicate_listing(
    m: ContractV,
    tokens: Seq<TokenLocatorV>,
    price1: Option<u128>,
    owner: Seq<char>,
)
    requires
        add_listing_err(m, tokens, owner) is None,
    ensures
        add_listing_err(add_listing_next(m, tokens, price1, owner), tokens, owner) == Some(
            MarketError::DuplicateListing,
        ),
{
    let id = listing_id_of(tokens, owner);
    lemma_first_where(m.listings, listing_pred(id));
    lemma_first_where_push(m.listings, listing_pred(id), added_listing(tokens, price1, owner));
}

/// An empty token set is always refused, in every state and under every
/// owner.
pub proof fn law_empty_token_set(m: ContractV, owner: Seq<char>)
    ensures
        add_listing_err(m, Seq::<TokenLocatorV>::empty(), owner) == Some(
            MarketError::EmptyTokenSet,
        ),
{
}

/// A listing's owner can never bid on their own listing.
pub proof fn law_self_offer(m: ContractV, listing_id: u64, deposit: u128)
    requires
        has_listing(m.listings, listing_id),
    ensures
        add_offer_err(m, listing_id, listing_at(m.listings, listing_id).account_id, deposit)
            == Some(MarketError::SelfOffer),
{
}

/// Bidding twice on the same listing: the second offer by the same bidder
/// fails `DuplicateOffer`, whatever either deposit was.
pub proof fn law_duplicate_offer(
    m: ContractV,
    listing_id: u64,
    bidder: Seq<char>,
    deposit1: u128,
    deposit2: u128,
)
    requires
        add_offer_err(m, listing_id, bidder, deposit1) is None,
    ensures
        add_offer_err(
            add_offer_next(m, listing_id, bidder, deposit1),
            listing_id,
            bidder,
            deposit2,
        ) == Some(MarketError::DuplicateOffer),
{
    lemma_first_where(m.offers, offer_pred(listing_id, bidder));
    lemma_first_where_push(
        m.offers,
        offer_pred(listing_id, bidder),
        added_offer(listing_id, bidder, deposit1),
    );
}

/// A deposit below a listed price is refused as `InsufficientDeposit`.
pub proof fn law_deposit_below_price(
    m: ContractV,
    listing_id: u64,
    bidder: Seq<char>,
    deposit: u128,
    price: u128,
)
    requires
        has_listing(m.listings, listing_id),
        listing_at(m.listings, listing_id).account_id != bidder,
        !has_offer(m.offers, listing_id, bidder),
        listing_at(m.listings, listing_id).price == Some(price),
        deposit < price,
    ensures
        add_offer_err(m, listing_id, bidder, deposit) == Some(MarketError::InsufficientDeposit),
{
}

/// A positive deposit meeting a listed price succeeds, and the stored
/// offer carries exactly that deposit as its price.
pub proof fn law_deposit_meets_price(
    m: ContractV,
    listing_id: u64,
    bidder: Seq<char>,
    deposit: u128,
    price: u128,
)
    requires
        has_listing(m.listings, listing_id),
        listing_at(m.listings, listing_id).account_id != bidder,
        !has_offer(m.offers, listing_id, bidder),
        listing_at(m.listings, listing_id).price == Some(price),
        deposit >= price,
        deposit > 0,
    ensures
        add_offer_err(m, listing_id, bidder, deposit) is None,
        add_offer_next(m, listing_id, bidder, deposit).offers.last() == (OfferV {
            listing_id,
            offering_account_id: bidder,
            offered_price: Some(deposit),
        }),
{
}

/// Only the listing owner can settle a listing.
pub proof fn law_not_listing_owner(
    m: ContractV,
    listing_id: u64,
    perm: PermissionV,
    caller: Seq<char>,
)
    requires
        has_listing(m.listings, listing_id),
        listing_at(m.listings, listing_id).account_id != caller,
    ensures
        accept_offer_err(m, listing_id, perm, caller) == Some(MarketError::NotListingOwner),
{
}

/// A settlement names exactly one beneficiary: none fails
/// `EmptyBeneficiaries`, more than one fails `MultiAcceptUnsupported`.
pub proof fn law_beneficiary_count(
    m: ContractV,
    listing_id: u64,
    perm: PermissionV,
    caller: Seq<char>,
)
    requires
        has_listing(m.listings, listing_id),
        listing_at(m.listings, listing_id).account_id == caller,
        perm.body.accounts.len() != 1,
    ensures
        accept_offer_err(m, listing_id, perm, caller) == Some(
            if perm.body.accounts.len() == 0 {
                MarketError::EmptyBeneficiaries
            } else {
                MarketError::MultiAcceptUnsupported
            },
        ),
{
}

/// Every offer in a seller's derived view is a stored offer.
pub proof fn lemma_seller_offers_membership(
    ls: Seq<crate::types::ListingV>,
    os: Seq<OfferV>,
    seller: Seq<char>,
)
    ensures
        forall|k: int|
            #![trigger seller_offers(ls, os, seller)[k]]
            0 <= k < seller_offers(ls, os, seller).len() ==> os.contains(
                seller_offers(ls, os, seller)[k],
            ),
    decreases os.len(),
{
    if os.len() > 0 {
        let head = os.drop_last();
        lemma_seller_offers_membership(ls, head, seller);
        let rest = seller_offers(ls, head, seller);
        let all = seller_offers(ls, os, seller);
        assert forall|k: int|
            #![trigger all[k]]
            0 <= k < all.len() implies os.contains(all[k]) by {
            if k < rest.len() {
                assert(all[k] == rest[k]);
                let i = choose|i: int| 0 <= i < head.len() && head[i] == rest[k];
                assert(os[i] == all[k]);
            } else {
                assert(all[k] == os[os.len() - 1]);
            }
        }
    }
}

/// After a successful settlement, the matched offer is gone: the bidder no
/// longer has an offer on that listing, and the seller's offer view no
/// longer shows one by that bidder on it.
pub proof fn law_settled_offer_removed(
    m: ContractV,
    listing_id: u64,
    perm: PermissionV,
    caller: Seq<char>,
)
    requires
        wf(m),
        accept_offer_err(m, listing_id, perm, caller) is None,
    ensures
        !has_offer(accept_offer_next(m, listing_id, perm).offers, listing_id, perm.body.accounts[0]),
        forall|k: int|
            #![trigger seller_offers(m.listings, accept_offer_next(m, listing_id, perm).offers, caller)[k]]
            0 <= k < seller_offers(
                m.listings,
                accept_offer_next(m, listing_id, perm).offers,
                caller,
            ).len() ==> !(seller_offers(
                m.listings,
                accept_offer_next(m, listing_id, perm).offers,
                caller,
            )[k].listing_id == listing_id && seller_offers(
                m.listings,
                accept_offer_next(m, listing_id, perm).offers,
                caller,
            )[k].offering_account_id == perm.body.accounts[0]),
{
    let bidder = perm.body.accounts[0];
    let oi = offer_index(m.offers, listing_id, bidder);
    lemma_first_where(m.offers, offer_pred(listing_id, bidder));
    let next_offers = accept_offer_next(m, listing_id, perm).offers;
    m.offers.remove_ensures(oi);
    assert(next_offers == m.offers.remove(oi));
    assert forall|k: int|
        #![trigger next_offers[k]]
        0 <= k < next_offers.len() implies !(next_offers[k].listing_id == listing_id
        && next_offers[k].offering_account_id == bidder) by {
        let k0 = if k < oi {
            k
        } else {
            k + 1
        };
        assert(next_offers[k] == m.offers[k0]);
        // by uniqueness of (listing, bidder) pairs, only the removed index
        // matched
        if k0 < oi {
            assert(!(m.offers[k0].listing_id == m.offers[oi].listing_id
                && m.offers[k0].offering_account_id == m.offers[oi].offering_account_id));
        } else {
            assert(!(m.offers[oi].listing_id == m.offers[k0].listing_id
                && m.offers[oi].offering_account_id == m.offers[k0].offering_account_id));
        }
    }
    lemma_first_where(next_offers, offer_pred(listing_id, bidder));
    lemma_seller_offers_membership(m.listings, next_offers, caller);
    let sv = seller_offers(m.listings, next_offers, caller);
    assert forall|k: int|
        #![trigger sv[k]]
        0 <= k < sv.len() implies !(sv[k].listing_id == listing_id && sv[k].offering_account_id
        == bidder) by {
        let i = choose|i: int| 0 <= i < next_offers.len() && next_offers[i] == sv[k];
        assert(!(next_offers[i].listing_id == listing_id && next_offers[i].offering_account_id
            == bidder));
    }
}

/// A zero pagination limit is always refused.
pub proof fn law_zero_limit()
    ensures
        sbt_permissions_err(Some(0u64)) == Some(MarketError::ZeroLimit),
{
}

/// A window starting beyond the available count is empty.
pub proof fn law_page_beyond_end(
    m: ContractV,
    token: TokenLocatorV,
    from_index: u64,
    limit: Option<u64>,
)
    requires
        from_index > sbt_permission_sigs(m, token).len(),
    ensures
        permissions_page(m, token, Some(from_index), limit).len() == 0,
{
}

/// The permission with a stored signature is the stored permission: with
/// unique signatures, hydration returns exactly the permission that
/// contributed the signature.
pub proof fn lemma_perm_at_signature(m: ContractV, i: int)
    requires
        wf(m),
        0 <= i < m.permissions.len(),
    ensures
        perm_index(m.permissions, m.permissions[i].signature) == i,
        perm_at(m.permissions, m.permissions[i].signature) == m.permissions[i],
{
    let sig = m.permissions[i].signature;
    lemma_first_where(m.permissions, perm_pred(sig));
    let fw = perm_index(m.permissions, sig);
    assert(perm_pred(sig)(m.permissions[i]));
    if fw < i {
        assert(m.permissions[fw].signature == m.permissions[i].signature);
    }
}

/// A permission listing a locator is indexed, and served, under that
/// locator's exact token id.
pub proof fn law_exact_token_served(m: ContractV, i: int, token: TokenLocatorV)
    requires
        wf(m),
        0 <= i < m.permissions.len(),
        m.permissions[i].body.sbt_tokens.contains(token),
    ensures
        sbt_permission_sigs(m, token).contains(m.permissions[i].signature),
        exists|j: int|
            0 <= j < permissions_page(m, token, None, None).len() && permissions_page(
                m,
                token,
                None,
                None,
            )[j] == m.permissions[i],
{
    lemma_token_sigs_contains(m.permissions, i, token);
    let sigs = sbt_permission_sigs(m, token);
    let part = token_sigs(m.permissions, token);
    let k = choose|k: int| 0 <= k < part.len() && part[k] == m.permissions[i].signature;
    assert(sigs[k] == m.permissions[i].signature);
    lemma_perm_at_signature(m, i);
    assert(permissions_page(m, token, None, None)[k] == m.permissions[i]);
}

/// A permission listing a contract's wildcard locator is served for every
/// concrete token id under that contract, alongside any permissions that
/// target the token id specifically.
pub proof fn law_wildcard_applies(
    m: ContractV,
    i: int,
    chain: Seq<char>,
    sbt_contract: Seq<char>,
    token_id: Seq<char>,
)
    requires
        wf(m),
        0 <= i < m.permissions.len(),
        m.permissions[i].body.sbt_tokens.contains(
            TokenLocatorV { chain_id: chain, sbt_contract_id: sbt_contract, token_id: wildcard() },
        ),
    ensures
        sbt_permission_sigs(
            m,
            TokenLocatorV { chain_id: chain, sbt_contract_id: sbt_contract, token_id },
        ).contains(m.permissions[i].signature),
        exists|j: int|
            0 <= j < permissions_page(
                m,
                TokenLocatorV { chain_id: chain, sbt_contract_id: sbt_contract, token_id },
                None,
                None,
            ).len() && permissions_page(
                m,
                TokenLocatorV { chain_id: chain, sbt_contract_id: sbt_contract, token_id },
                None,
                None,
            )[j] == m.permissions[i],
{
    let token = TokenLocatorV { chain_id: chain, sbt_contract_id: sbt_contract, token_id };
    let star = wildcard_key(token);
    lemma_token_sigs_contains(m.permissions, i, star);
    let sigs = sbt_permission_sigs(m, token);
    let exact = token_sigs(m.permissions, token);
    let part = token_sigs(m.permissions, star);
    let k = choose|k: int| 0 <= k < part.len() && part[k] == m.permissions[i].signature;
    assert(sigs[exact.len() + k] == m.permissions[i].signature);
    lemma_perm_at_signature(m, i);
    assert(permissions_page(m, token, None, None)[exact.len() + k] == m.permissions[i]);
}

/// Registering two byte-identical signatures: the second registration
/// fails `DuplicateSignature`; since a failed registration changes
/// nothing, every token-keyed index entry reflects only the first.
pub proof fn law_duplicate_signature(m: ContractV, p1: PermissionV, p2: PermissionV)
    requires
        create_permission_err(m, p1) is None,
        p2.signature == p1.signature,
    ensures
        create_permission_err(create_permission_next(m, p1), p2) == Some(
            MarketError::DuplicateSignature,
        ),
{
    lemma_first_where(m.permissions, perm_pred(p2.signature));
    lemma_first_where_push(m.permissions, perm_pred(p2.signature), p1);
}

} // verus!
