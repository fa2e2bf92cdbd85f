//! Listings, offers and settlement, exercised end to end.

use sbt_marketplace::contract::Contract;
use sbt_marketplace::errors::MarketError;
use sbt_marketplace::ids::get_listing_id;
use sbt_marketplace::types::{
    PayoutPolicy, PermissionBody, SBTPermission, SBTPermissionsContractMetadata, SBTTokenLocator,
};

fn meta() -> SBTPermissionsContractMetadata {
    SBTPermissionsContractMetadata {
        spec_version: "sbt-permissions-0.0.1".to_string(),
        name: None,
        symbol: None,
        base_uri: None,
        reference: None,
    }
}

fn market() -> Contract {
    Contract::new("admin".to_string(), meta())
}

fn locator(chain: &str, contract: &str, token: &str) -> SBTTokenLocator {
    SBTTokenLocator {
        chain_id: chain.to_string(),
        sbt_contract_id: contract.to_string(),
        token_id: token.to_string(),
    }
}

fn permission_for(accounts: Vec<&str>, tokens: Vec<SBTTokenLocator>, sig: &str) -> SBTPermission {
    SBTPermission {
        body: PermissionBody {
            sbt_tokens: tokens,
            accounts: accounts.into_iter().map(|a| a.to_string()).collect(),
        },
        signature: sig.to_string(),
        public_key: "ed25519:pk".to_string(),
    }
}

#[test]
fn add_listing_returns_derived_id() {
    let mut m = market();
    let tokens = vec![locator("near", "providerA", "t1")];
    let expected = get_listing_id(&tokens, &"alice".to_string());
    let id = m
        .add_listing(tokens, Some(100), "alice".to_string())
        .expect("listing should be created");
    assert_eq!(id, expected);
    let listings = m.view_listings();
    assert_eq!(listings.len(), 1);
    assert_eq!(listings[0].id, id);
    assert_eq!(listings[0].account_id, "alice");
    assert_eq!(listings[0].price, Some(100));
    assert_eq!(listings[0].tokens.len(), 1);
    assert_eq!(listings[0].tokens[0].sbt_contract_id, "providerA");
}

#[test]
fn add_listing_empty_token_set_fails() {
    let mut m = market();
    let r = m.add_listing(Vec::new(), None, "alice".to_string());
    assert_eq!(r, Err(MarketError::EmptyTokenSet));
    assert_eq!(m.view_listings().len(), 0);
}

#[test]
fn add_listing_twice_fails_duplicate() {
    let mut m = market();
    let tokens = vec![locator("near", "providerA", "t1"), locator("near", "providerB", "t2")];
    let tokens_again = vec![locator("near", "providerA", "t1"), locator("near", "providerB", "t2")];
    m.add_listing(tokens, Some(5), "alice".to_string()).unwrap();
    let r = m.add_listing(tokens_again, Some(9), "alice".to_string());
    assert_eq!(r, Err(MarketError::DuplicateListing));
}

#[test]
fn add_listing_reordered_tokens_gets_new_id() {
    let mut m = market();
    let a = || locator("near", "providerA", "t1");
    let b = || locator("near", "providerB", "t2");
    let first = m.add_listing(vec![a(), b()], None, "alice".to_string()).unwrap();
    let second = m
        .add_listing(vec![b(), a()], None, "alice".to_string())
        .expect("reordering the tokens derives a fresh id");
    assert_ne!(first, second);
    assert_eq!(m.view_listings().len(), 2);
}

#[test]
fn same_tokens_different_owners_coexist() {
    let mut m = market();
    let id_a = m
        .add_listing(vec![locator("near", "p", "t")], None, "alice".to_string())
        .unwrap();
    let id_b = m
        .add_listing(vec![locator("near", "p", "t")], None, "bob".to_string())
        .unwrap();
    assert_ne!(id_a, id_b);
}

#[test]
fn add_offer_on_missing_listing_fails() {
    let mut m = market();
    let r = m.add_offer(7, "bob".to_string(), 10);
    assert_eq!(r, Err(MarketError::NoSuchListing));
}

#[test]
fn add_offer_on_own_listing_fails() {
    let mut m = market();
    let id = m
        .add_listing(vec![locator("near", "p", "t")], None, "alice".to_string())
        .unwrap();
    let r = m.add_offer(id, "alice".to_string(), 10);
    assert_eq!(r, Err(MarketError::SelfOffer));
}

#[test]
fn add_offer_twice_fails_duplicate() {
    let mut m = market();
    let id = m
        .add_listing(vec![locator("near", "p", "t")], None, "alice".to_string())
        .unwrap();
    m.add_offer(id, "bob".to_string(), 10).unwrap();
    let r = m.add_offer(id, "bob".to_string(), 25);
    assert_eq!(r, Err(MarketError::DuplicateOffer));
}

#[test]
fn add_offer_below_price_fails() {
    let mut m = market();
    let id = m
        .add_listing(vec![locator("near", "p", "t")], Some(100), "alice".to_string())
        .unwrap();
    let r = m.add_offer(id, "bob".to_string(), 99);
    assert_eq!(r, Err(MarketError::InsufficientDeposit));
    assert_eq!(m.view_offers(&"alice".to_string()).len(), 0);
}

#[test]
fn add_offer_meeting_price_stores_deposit() {
    let mut m = market();
    let id = m
        .add_listing(vec![locator("near", "p", "t")], Some(100), "alice".to_string())
        .unwrap();
    m.add_offer(id, "bob".to_string(), 150).unwrap();
    let offers = m.view_offers(&"alice".to_string());
    assert_eq!(offers.len(), 1);
    assert_eq!(offers[0].listing_id, id);
    assert_eq!(offers[0].offering_account_id, "bob");
    assert_eq!(offers[0].offered_price, Some(150));
}

#[test]
fn add_offer_zero_deposit_stores_no_price() {
    let mut m = market();
    let id = m
        .add_listing(vec![locator("near", "p", "t")], None, "alice".to_string())
        .unwrap();
    m.add_offer(id, "carol".to_string(), 0).unwrap();
    let offers = m.view_own_offers(&"alice".to_string());
    assert_eq!(offers.len(), 1);
    assert_eq!(offers[0].offered_price, None);
}

#[test]
fn accept_offer_by_non_owner_fails() {
    let mut m = market();
    let id = m
        .add_listing(vec![locator("near", "p", "t")], None, "alice".to_string())
        .unwrap();
    m.add_offer(id, "bob".to_string(), 10).unwrap();
    let p = permission_for(vec!["bob"], vec![locator("near", "p", "t")], "sig-1");
    let r = m.accept_offer(id, p, &"mallory".to_string());
    assert_eq!(r.err(), Some(MarketError::NotListingOwner));
}

#[test]
fn accept_offer_needs_exactly_one_beneficiary() {
    let mut m = market();
    let id = m
        .add_listing(vec![locator("near", "p", "t")], None, "alice".to_string())
        .unwrap();
    m.add_offer(id, "bob".to_string(), 10).unwrap();
    let none = permission_for(vec![], vec![locator("near", "p", "t")], "sig-1");
    assert_eq!(
        m.accept_offer(id, none, &"alice".to_string()).err(),
        Some(MarketError::EmptyBeneficiaries)
    );
    let two = permission_for(vec!["bob", "carol"], vec![locator("near", "p", "t")], "sig-1");
    assert_eq!(
        m.accept_offer(id, two, &"alice".to_string()).err(),
        Some(MarketError::MultiAcceptUnsupported)
    );
}

#[test]
fn accept_offer_without_any_offers_fails() {
    let mut m = market();
    let id = m
        .add_listing(vec![locator("near", "p", "t")], None, "alice".to_string())
        .unwrap();
    let p = permission_for(vec!["bob"], vec![locator("near", "p", "t")], "sig-1");
    assert_eq!(
        m.accept_offer(id, p, &"alice".to_string()).err(),
        Some(MarketError::NoOffersForAccount)
    );
}

#[test]
fn accept_offer_without_offer_on_listing_fails() {
    let mut m = market();
    let first = m
        .add_listing(vec![locator("near", "p", "t1")], None, "alice".to_string())
        .unwrap();
    let second = m
        .add_listing(vec![locator("near", "p", "t2")], None, "alice".to_string())
        .unwrap();
    m.add_offer(first, "bob".to_string(), 10).unwrap();
    let p = permission_for(vec!["bob"], vec![locator("near", "p", "t2")], "sig-1");
    assert_eq!(
        m.accept_offer(second, p, &"alice".to_string()).err(),
        Some(MarketError::NoSuchOffer)
    );
}

#[test]
fn accept_offer_splits_the_escrowed_price() {
    // Listing {tokens: [t1@providerA], owner: alice, price: 100}; bob
    // deposits 150: alice is scheduled 120 = 150*8/10, providerA is
    // scheduled 22 = floor(150*3/20), and 8 units stay in custody.
    let mut m = market();
    let id = m
        .add_listing(vec![locator("near", "providerA", "t1")], Some(100), "alice".to_string())
        .unwrap();
    m.add_offer(id, "bob".to_string(), 150).unwrap();
    let p = permission_for(vec!["bob"], vec![locator("near", "providerA", "t1")], "sig-1");
    let transfers = m.accept_offer(id, p, &"alice".to_string()).unwrap();
    assert_eq!(transfers.len(), 2);
    assert_eq!(transfers[0].account_id, "providerA");
    assert_eq!(transfers[0].amount, 22);
    assert_eq!(transfers[1].account_id, "alice");
    assert_eq!(transfers[1].amount, 120);
    let scheduled: u128 = transfers.iter().map(|t| t.amount).sum();
    assert_eq!(150 - scheduled, 8);
}

#[test]
fn accept_offer_without_price_schedules_nothing() {
    // Two locators of the same provider, no asking price, a zero deposit:
    // settlement stores the permission and removes the offer, but pays
    // nobody.
    let mut m = market();
    let tokens = vec![locator("near", "providerX", "t1"), locator("near", "providerX", "t2")];
    let id = m.add_listing(tokens, None, "alice".to_string()).unwrap();
    m.add_offer(id, "carol".to_string(), 0).unwrap();
    let p = permission_for(
        vec!["carol"],
        vec![locator("near", "providerX", "t1"), locator("near", "providerX", "t2")],
        "sig-1",
    );
    let transfers = m.accept_offer(id, p, &"alice".to_string()).unwrap();
    assert_eq!(transfers.len(), 0);
    assert_eq!(m.view_offers(&"alice".to_string()).len(), 0);
}

#[test]
fn accepted_offer_leaves_every_view() {
    let mut m = market();
    let id = m
        .add_listing(vec![locator("near", "p", "t")], None, "alice".to_string())
        .unwrap();
    m.add_offer(id, "bob".to_string(), 10).unwrap();
    let p = permission_for(vec!["bob"], vec![locator("near", "p", "t")], "sig-1");
    m.accept_offer(id, p, &"alice".to_string()).unwrap();
    // gone from the seller's view ...
    assert_eq!(m.view_offers(&"alice".to_string()).len(), 0);
    // ... and from the bidder-keyed index: the same bidder may offer anew
    m.add_offer(id, "bob".to_string(), 11)
        .expect("the settled offer no longer blocks a fresh one");
}

#[test]
fn accept_offer_with_duplicate_signature_changes_nothing() {
    let mut m = market();
    let id = m
        .add_listing(vec![locator("near", "p", "t")], None, "alice".to_string())
        .unwrap();
    m.add_offer(id, "bob".to_string(), 10).unwrap();
    let taken = permission_for(vec!["somebody"], vec![locator("near", "p", "x")], "sig-1");
    m.create_permission(taken).unwrap();
    let p = permission_for(vec!["bob"], vec![locator("near", "p", "t")], "sig-1");
    assert_eq!(
        m.accept_offer(id, p, &"alice".to_string()).err(),
        Some(MarketError::DuplicateSignature)
    );
    // the aborted settlement left the offer in place
    let offers = m.view_offers(&"alice".to_string());
    assert_eq!(offers.len(), 1);
    assert_eq!(offers[0].offering_account_id, "bob");
}

#[test]
fn payout_per_locator_pays_once_per_occurrence() {
    let mut m = market();
    let tokens = vec![locator("near", "providerX", "t1"), locator("near", "providerX", "t2")];
    let id = m.add_listing(tokens, None, "alice".to_string()).unwrap();
    m.add_offer(id, "bob".to_string(), 200).unwrap();
    let p = permission_for(vec!["bob"], vec![locator("near", "providerX", "t1")], "sig-1");
    let transfers = m.accept_offer(id, p, &"alice".to_string()).unwrap();
    // pool = floor(200*3/20) = 30, split over two locator occurrences
    assert_eq!(transfers.len(), 3);
    assert_eq!(transfers[0].account_id, "providerX");
    assert_eq!(transfers[0].amount, 15);
    assert_eq!(transfers[1].account_id, "providerX");
    assert_eq!(transfers[1].amount, 15);
    assert_eq!(transfers[2].account_id, "alice");
    assert_eq!(transfers[2].amount, 160);
}

#[test]
fn payout_per_distinct_provider_pays_each_provider_once() {
    let mut m = Contract::new_with_policy(
        "admin".to_string(),
        meta(),
        PayoutPolicy::PerDistinctProvider,
    );
    let tokens = vec![locator("near", "providerX", "t1"), locator("near", "providerX", "t2")];
    let id = m.add_listing(tokens, None, "alice".to_string()).unwrap();
    m.add_offer(id, "bob".to_string(), 200).unwrap();
    let p = permission_for(vec!["bob"], vec![locator("near", "providerX", "t1")], "sig-1");
    let transfers = m.accept_offer(id, p, &"alice".to_string()).unwrap();
    // the whole pool of 30 goes to the single distinct provider
    assert_eq!(transfers.len(), 2);
    assert_eq!(transfers[0].account_id, "providerX");
    assert_eq!(transfers[0].amount, 30);
    assert_eq!(transfers[1].account_id, "alice");
    assert_eq!(transfers[1].amount, 160);
}

#[test]
fn default_contract_carries_published_metadata() {
    let m = Contract::default();
    let md = m.sbt_permissions_metadata();
    assert_eq!(md.spec_version, "sbt-permissions-0.0.1");
    assert_eq!(md.name, Some("sbt-marketplace-nearcon".to_string()));
    assert_eq!(md.symbol, Some("NCMP".to_string()));
    assert_eq!(md.base_uri, None);
    assert_eq!(md.reference, None);
}

#[test]
fn contract_key_pairs_chain_and_contract() {
    let t = locator("near", "providerA", "t1");
    let (chain, contract) = t.contract_key();
    assert_eq!(chain, "near");
    assert_eq!(contract, "providerA");
}

#[test]
fn listing_stays_active_after_acceptance() {
    // No operation deactivates a listing: after one settlement the owner
    // may accept a further offer from another bidder.
    let mut m = market();
    let id = m
        .add_listing(vec![locator("near", "p", "t")], None, "alice".to_string())
        .unwrap();
    m.add_offer(id, "bob".to_string(), 10).unwrap();
    m.add_offer(id, "carol".to_string(), 20).unwrap();
    let first = permission_for(vec!["bob"], vec![locator("near", "p", "t")], "sig-1");
    m.accept_offer(id, first, &"alice".to_string()).unwrap();
    let second = permission_for(vec!["carol"], vec![locator("near", "p", "t")], "sig-2");
    m.accept_offer(id, second, &"alice".to_string())
        .expect("the listing is still active after a settlement");
    assert_eq!(m.view_offers(&"alice".to_string()).len(), 0);
}
