//! The permission ledger: registration, the token-keyed index, wildcards
//! and pagination.

use sbt_marketplace::contract::Contract;
use sbt_marketplace::errors::MarketError;
use sbt_marketplace::types::{
    PermissionBody, SBTPermission, SBTPermissionsContractMetadata, SBTTokenLocator,
};

fn meta() -> SBTPermissionsContractMetadata {
    SBTPermissionsContractMetadata {
        spec_version: "sbt-permissions-0.0.1".to_string(),
        name: None,
        symbol: None,
        base_uri: None,
        reference: None,
    }
}

fn market() -> Contract {
    Contract::new("admin".to_string(), meta())
}

fn locator(chain: &str, contract: &str, token: &str) -> SBTTokenLocator {
    SBTTokenLocator {
        chain_id: chain.to_string(),
        sbt_contract_id: contract.to_string(),
        token_id: token.to_string(),
    }
}

fn permission_over(tokens: Vec<SBTTokenLocator>, sig: &str) -> SBTPermission {
    SBTPermission {
        body: PermissionBody {
            sbt_tokens: tokens,
            accounts: vec!["grantee".to_string()],
        },
        signature: sig.to_string(),
        public_key: "ed25519:pk".to_string(),
    }
}

#[test]
fn create_permission_indexes_every_locator() {
    let mut m = market();
    let p = permission_over(
        vec![locator("near", "providerA", "t1"), locator("eth", "providerB", "t9")],
        "sig-1",
    );
    m.create_permission(p).unwrap();
    assert_eq!(m.sbt_permissions_count(&locator("near", "providerA", "t1")), 1);
    assert_eq!(m.sbt_permissions_count(&locator("eth", "providerB", "t9")), 1);
    assert_eq!(m.sbt_permissions_count(&locator("near", "providerA", "t2")), 0);
    assert_eq!(m.sbt_permissions_count(&locator("eth", "providerA", "t1")), 0);
}

#[test]
fn create_permission_duplicate_signature_fails() {
    let mut m = market();
    m.create_permission(permission_over(vec![locator("near", "p", "t1")], "sig-1"))
        .unwrap();
    let again = permission_over(vec![locator("near", "p", "t1"), locator("near", "p", "t2")], "sig-1");
    assert_eq!(m.create_permission(again), Err(MarketError::DuplicateSignature));
    // the index reflects only the first registration
    assert_eq!(m.sbt_permissions_count(&locator("near", "p", "t1")), 1);
    assert_eq!(m.sbt_permissions_count(&locator("near", "p", "t2")), 0);
}

#[test]
fn sbt_permissions_returns_stored_permissions() {
    let mut m = market();
    m.create_permission(permission_over(vec![locator("near", "p", "t1")], "sig-1"))
        .unwrap();
    let got = m
        .sbt_permissions(&locator("near", "p", "t1"), None, None)
        .unwrap();
    assert_eq!(got.len(), 1);
    assert_eq!(got[0].signature, "sig-1");
    assert_eq!(got[0].body.sbt_tokens.len(), 1);
    assert_eq!(got[0].body.sbt_tokens[0].token_id, "t1");
}

#[test]
fn sbt_permissions_zero_limit_fails() {
    let mut m = market();
    m.create_permission(permission_over(vec![locator("near", "p", "t1")], "sig-1"))
        .unwrap();
    let r = m.sbt_permissions(&locator("near", "p", "t1"), None, Some(0));
    assert_eq!(r.err(), Some(MarketError::ZeroLimit));
}

#[test]
fn sbt_permissions_from_index_beyond_count_is_empty() {
    let mut m = market();
    m.create_permission(permission_over(vec![locator("near", "p", "t1")], "sig-1"))
        .unwrap();
    let got = m
        .sbt_permissions(&locator("near", "p", "t1"), Some(5), None)
        .unwrap();
    assert_eq!(got.len(), 0);
}

#[test]
fn sbt_permissions_pagination_window() {
    let mut m = market();
    for i in 0..5u32 {
        m.create_permission(permission_over(
            vec![locator("near", "p", "t1")],
            &format!("sig-{}", i),
        ))
        .unwrap();
    }
    let all = m.sbt_permissions(&locator("near", "p", "t1"), None, None).unwrap();
    assert_eq!(all.len(), 5);
    let window = m
        .sbt_permissions(&locator("near", "p", "t1"), Some(1), Some(2))
        .unwrap();
    assert_eq!(window.len(), 2);
    assert_eq!(window[0].signature, "sig-1");
    assert_eq!(window[1].signature, "sig-2");
    let tail = m
        .sbt_permissions(&locator("near", "p", "t1"), Some(3), Some(10))
        .unwrap();
    assert_eq!(tail.len(), 2);
    assert_eq!(tail[0].signature, "sig-3");
    assert_eq!(tail[1].signature, "sig-4");
}

#[test]
fn wildcard_permission_covers_every_token_of_its_contract() {
    let mut m = market();
    m.create_permission(permission_over(vec![locator("near", "p", "*")], "sig-star"))
        .unwrap();
    for token in ["t1", "t2", "anything"] {
        let got = m.sbt_permissions(&locator("near", "p", token), None, None).unwrap();
        assert_eq!(got.len(), 1);
        assert_eq!(got[0].signature, "sig-star");
    }
    // but not tokens of another contract
    assert_eq!(m.sbt_permissions_count(&locator("near", "q", "t1")), 0);
}

#[test]
fn exact_and_wildcard_entries_are_concatenated() {
    let mut m = market();
    m.create_permission(permission_over(vec![locator("near", "p", "t1")], "sig-exact"))
        .unwrap();
    m.create_permission(permission_over(vec![locator("near", "p", "*")], "sig-star"))
        .unwrap();
    let got = m.sbt_permissions(&locator("near", "p", "t1"), None, None).unwrap();
    assert_eq!(got.len(), 2);
    assert_eq!(got[0].signature, "sig-exact");
    assert_eq!(got[1].signature, "sig-star");
    assert_eq!(m.sbt_permissions_count(&locator("near", "p", "t1")), 2);
    // a token with no exact entry still sees the wildcard one
    let other = m.sbt_permissions(&locator("near", "p", "t2"), None, None).unwrap();
    assert_eq!(other.len(), 1);
    assert_eq!(other[0].signature, "sig-star");
}

#[test]
fn duplicate_locator_in_one_body_is_indexed_per_occurrence() {
    let mut m = market();
    m.create_permission(permission_over(
        vec![locator("near", "p", "t1"), locator("near", "p", "t1")],
        "sig-1",
    ))
    .unwrap();
    assert_eq!(m.sbt_permissions_count(&locator("near", "p", "t1")), 2);
}

#[test]
fn verify_permission_accepts_every_signature() {
    let m = market();
    let p = permission_over(vec![locator("near", "p", "t1")], "not-really-signed");
    assert!(m.verify_permission(&p));
}
