//! Accepting a single offer: permission issuance, offer removal, and the
//! payment split.
//!
//! A successful settlement stores the permission, removes the matched offer
//! from the offer store (and with it from every derived index), and emits
//! one transfer descriptor per payee: the listing owner receives
//! `floor(price * 8 / 10)`, and the provider pool of `floor(price * 3 / 20)`
//! is divided evenly — by integer division, remainder discarded — among the
//! payees that the configured [`PayoutPolicy`] selects. What remains of the
//! price stays in contract custody. The transfers are descriptors only:
//! the hosting shell executes them after the call commits, and their
//! outcome never reaches back into this state.

use vstd::prelude::*;
use vstd::arithmetic::div_mod::{lemma_div_multiples_vanish_fancy, lemma_fundamental_div_mod};
use crate::contract::Contract;
use crate::errors::MarketError;
use crate::model::{
    account_has_offers, has_listing, has_offer, has_permission, listing_at, offer_at, offer_index,
    offer_ok, wf, ContractV,
};
use crate::types::{
    AccountId, ListingId, ListingV, OfferV, PayoutPolicy, SBTPermission, SBTTokenLocator,
    ScheduledTransfer, TokenLocatorV, TransferV,
};

verus! {

/// The listing owner's share of a settled price.
pub open spec fn owner_amount(price: u128) -> int {
    price * 8 / 10
}

/// The pool shared by the token providers of a settled price.
pub open spec fn provider_pool(price: u128) -> int {
    price * 3 / 20
}

/// The issuing contract of each locator, in listing order.
pub open spec fn provider_ids(tokens: Seq<TokenLocatorV>) -> Seq<Seq<char>> {
    Seq::new(tokens.len(), |i: int| tokens[i].sbt_contract_id)
}

/// The distinct issuing contracts, in order of first occurrence.
pub open spec fn distinct_providers(tokens: Seq<TokenLocatorV>) -> Seq<Seq<char>>
    decreases tokens.len(),
{
    if tokens.len() == 0 {
        Seq::empty()
    } else {
        let rest = distinct_providers(tokens.drop_last());
        if rest.contains(tokens.last().sbt_contract_id) {
            rest
        } else {
            rest.push(tokens.last().sbt_contract_id)
        }
    }
}

/// A non-empty token set always selects at least one payee.
pub proof fn lemma_distinct_providers_nonempty(tokens: Seq<TokenLocatorV>)
    requires
        tokens.len() > 0,
    ensures
        distinct_providers(tokens).len() >= 1,
{
    let rest = distinct_providers(tokens.drop_last());
    if rest.contains(tokens.last().sbt_contract_id) {
        assert(rest.len() > 0);
    }
}

/// The provider accounts paid by a settlement, as the policy selects them.
pub open spec fn payee_list(tokens: Seq<TokenLocatorV>, policy: PayoutPolicy) -> Seq<Seq<char>> {
    match policy {
        PayoutPolicy::PerLocator => provider_ids(tokens),
        PayoutPolicy::PerDistinctProvider => distinct_providers(tokens),
    }
}

/// The transfers a settlement schedules: nothing for a price-less offer;
/// otherwise each provider payee's even share of the pool, then the
/// listing owner's share.
pub open spec fn settlement_transfers(
    listing: ListingV,
    offer: OfferV,
    policy: PayoutPolicy,
) -> Seq<TransferV> {
    match offer.offered_price {
        None => Seq::empty(),
        Some(price) => {
            let payees = payee_list(listing.tokens, policy);
            let share = (provider_pool(price) / (payees.len() as int)) as u128;
            Seq::new(
                payees.len(),
                |i: int| TransferV { account_id: payees[i], amount: share },
            ).push(TransferV { account_id: listing.account_id, amount: owner_amount(price) as u128 })
        },
    }
}

/// Why `accept_offer` is refused, if it is, in the order the checks run:
/// the listing must exist and be the caller's; the permission must name
/// exactly one beneficiary; that beneficiary must have an offer, and one
/// on this listing; and the permission's signature must be new.
pub open spec fn accept_offer_err(
    m: ContractV,
    listing_id: u64,
    perm: crate::types::PermissionV,
    caller: Seq<char>,
) -> Option<MarketError> {
    if !has_listing(m.listings, listing_id) {
        Some(MarketError::NoSuchListing)
    } else if listing_at(m.listings, listing_id).account_id != caller {
        Some(MarketError::NotListingOwner)
    } else if perm.body.accounts.len() == 0 {
        Some(MarketError::EmptyBeneficiaries)
    } else if perm.body.accounts.len() > 1 {
        Some(MarketError::MultiAcceptUnsupported)
    } else {
        let bidder = perm.body.accounts[0];
        if !account_has_offers(m.offers, bidder) {
            Some(MarketError::NoOffersForAccount)
        } else if !has_offer(m.offers, listing_id, bidder) {
            Some(MarketError::NoSuchOffer)
        } else if has_permission(m.permissions, perm.signature) {
            Some(MarketError::DuplicateSignature)
        } else {
            None
        }
    }
}

/// The state after a successful `accept_offer`: the permission appended to
/// the permission store, the matched offer removed from the offer store,
/// the listing untouched.
pub open spec fn accept_offer_next(
    m: ContractV,
    listing_id: u64,
    perm: crate::types::PermissionV,
) -> ContractV {
    let bidder = perm.body.accounts[0];
    ContractV {
        permissions: m.permissions.push(perm),
        offers: m.offers.remove(offer_index(m.offers, listing_id, bidder)),
        ..m
    }
}

/// The transfers a successful `accept_offer` schedules.
pub open spec fn accept_offer_transfers(
    m: ContractV,
    listing_id: u64,
    perm: crate::types::PermissionV,
) -> Seq<TransferV> {
    settlement_transfers(
        listing_at(m.listings, listing_id),
        offer_at(m.offers, listing_id, perm.body.accounts[0]),
        m.payout_policy,
    )
}

/// Computes `floor(price * 8 / 10)` without overflowing.
fn owner_amount_exec(price: u128) -> (r: u128)
    ensures
        r as int == owner_amount(price),
{
    let q = price / 10;
    let rm = price % 10;
    let s = (8 * rm) / 10;
    proof {
        let p = price as int;
        lemma_fundamental_div_mod(p, 10);
        lemma_fundamental_div_mod(8 * (rm as int), 10);
        let t = (8 * (rm as int)) % 10;
        assert(p * 8 == 10 * (8 * (q as int) + (s as int)) + t);
        lemma_div_multiples_vanish_fancy(8 * (q as int) + (s as int), t, 10);
    }
    8 * q + s
}

/// Computes `floor(price * 3 / 20)` without overflowing.
fn provider_pool_exec(price: u128) -> (r: u128)
    ensures
        r as int == provider_pool(price),
{
    let q = price / 20;
    let rm = price % 20;
    let s = (3 * rm) / 20;
    proof {
        let p = price as int;
        lemma_fundamental_div_mod(p, 20);
        lemma_fundamental_div_mod(3 * (rm as int), 20);
        let t = (3 * (rm as int)) % 20;
        assert(p * 3 == 20 * (3 * (q as int) + (s as int)) + t);
        lemma_div_multiples_vanish_fancy(3 * (q as int) + (s as int), t, 20);
    }
    3 * q + s
}

/// Whether one of the accounts is `x`.
fn contains_account(v: &Vec<AccountId>, x: &AccountId) -> (r: bool)
    ensures
        r == v.deep_view().contains(x@),
{
    let ghost dv = v.deep_view();
    let mut i: usize = 0;
    while i < v.len()
        invariant
            dv == v.deep_view(),
            dv.len() == v.len(),
            i <= v.len(),
            forall|k: int| 0 <= k < i ==> dv[k] != x@,
        decreases v.len() - i,
    {
        if v[i] == *x {
            proof {
                assert(dv[i as int] == x@);
            }
            return true;
        }
        i = i + 1;
    }
    false
}

/// The issuing contract of each locator, in listing order.
fn provider_accounts(tokens: &Vec<SBTTokenLocator>) -> (r: Vec<AccountId>)
    ensures
        r.deep_view() == provider_ids(tokens.deep_view()),
{
    let ghost tv = tokens.deep_view();
    let mut r: Vec<AccountId> = Vec::new();
    let mut i: usize = 0;
    while i < tokens.len()
        invariant
            tv == tokens.deep_view(),
            tv.len() == tokens.len(),
            i <= tokens.len(),
            r.deep_view().len() == i,
            forall|k: int|
                #![trigger r.deep_view()[k]]
                0 <= k < i ==> r.deep_view()[k] == tv[k].sbt_contract_id,
        decreases tokens.len() - i,
    {
        let ghost prev = r.deep_view();
        r.push(tokens[i].sbt_contract_id.clone());
        proof {
            assert(r.deep_view() =~= prev.push(tv[i as int].sbt_contract_id));
        }
        i = i + 1;
    }
    proof {
        assert(r.deep_view() =~= provider_ids(tv));
    }
    r
}

/// The distinct issuing contracts, in order of first occurrence.
fn distinct_accounts(tokens: &Vec<SBTTokenLocator>) -> (r: Vec<AccountId>)
    ensures
        r.deep_view() == distinct_providers(tokens.deep_view()),
{
    let ghost tv = tokens.deep_view();
    let mut r: Vec<AccountId> = Vec::new();
    proof {
        assert(r.deep_view() =~= distinct_providers(tv.take(0)));
    }
    let mut i: usize = 0;
    while i < tokens.len()
        invariant
            tv == tokens.deep_view(),
            tv.len() == tokens.len(),
            i <= tokens.len(),
            r.deep_view() == distinct_providers(tv.take(i as int)),
        decreases tokens.len() - i,
    {
        let ghost prev = r.deep_view();
        if !contains_account(&r, &tokens[i].sbt_contract_id) {
            r.push(tokens[i].sbt_contract_id.clone());
            proof {
                assert(r.deep_view() =~= prev.push(tv[i as int].sbt_contract_id));
            }
        }
        proof {
            let t = tv.take(i + 1);
            assert(t.drop_last() =~= tv.take(i as int));
            assert(t.last() == tv[i as int]);
        }
        i = i + 1;
    }
    proof {
        assert(tv.take(tv.len() as int) =~= tv);
    }
    r
}

impl Contract {
    /// Settles `listing_id` by accepting the single offer named by the
    /// permission's beneficiary, on behalf of `caller`.
    ///
    /// All checks run before any state changes: a failure of any of them —
    /// including a duplicate permission signature — leaves the state
    /// exactly as it was. On success the permission is stored, the matched
    /// offer is removed from the offer store and thereby from every
    /// derived view, and the returned transfer descriptors carry the
    /// payment split of the offered price (none, for a price-less offer).
    pub fn accept_offer(
        &mut self,
        listing_id: ListingId,
        permission: SBTPermission,
        caller: &AccountId,
    ) -> (r: Result<Vec<ScheduledTransfer>, MarketError>)
        requires
            old(self).inv(),
        ensures
            final(self).inv(),
            match r {
                Ok(transfers) => {
                    &&& accept_offer_err(old(self)@, listing_id, permission@, caller@) is None
                    &&& final(self)@ == accept_offer_next(old(self)@, listing_id, permission@)
                    &&& transfers.deep_view() == accept_offer_transfers(
                        old(self)@,
                        listing_id,
                        permission@,
                    )
                },
                Err(e) => {
                    &&& accept_offer_err(old(self)@, listing_id, permission@, caller@) == Some(e)
                    &&& final(self)@ == old(self)@
                },
            },
    {
        let ghost m0 = self@;
        let ghost pv = permission@;
        let li = match self.find_listing_idx(listing_id) {
            Some(i) => i,
            None => {
                return Err(MarketError::NoSuchListing);
            },
        };
        proof {
            assert(listing_at(m0.listings, listing_id) == self.listings[li as int]@);
        }
        if self.listings[li].account_id != *caller {
            return Err(MarketError::NotListingOwner);
        }
        if permission.body.accounts.len() == 0 {
            return Err(MarketError::EmptyBeneficiaries);
        }
        if permission.body.accounts.len() > 1 {
            return Err(MarketError::MultiAcceptUnsupported);
        }
        let bidder = permission.body.accounts[0].clone();
        proof {
            assert(bidder@ == pv.body.accounts[0]);
        }
        if !self.account_has_any_offer(&bidder) {
            return Err(MarketError::NoOffersForAccount);
        }
        let oi = match self.find_offer_idx(listing_id, &bidder) {
            Some(i) => i,
            None => {
                return Err(MarketError::NoSuchOffer);
            },
        };
        let offer_price = self.offers[oi].offered_price;
        proof {
            assert(offer_at(m0.offers, listing_id, bidder@) == self.offers[oi as int]@);
        }
        match self.create_permission(permission) {
            Ok(_) => {},
            Err(e) => {
                proof {
                    assert(e == MarketError::DuplicateSignature);
                    assert(has_permission(m0.permissions, pv.signature));
                }
                return Err(e);
            },
        }
        let ghost m1 = self@;
        self.offers.remove(oi);
        proof {
            assert(self@.offers =~= m1.offers.remove(oi as int));
            assert(self@.listings =~= m0.listings);
            assert(self@.permissions =~= m0.permissions.push(pv));
            m0.offers.remove_ensures(oi as int);
            assert(self@.offers =~= m0.offers.remove(
                offer_index(m0.offers, listing_id, pv.body.accounts[0]),
            ));
            assert(self@ == accept_offer_next(m0, listing_id, pv));
            // well-formedness survives the removal: every remaining offer
            // was already stored, at the same or the next index
            assert forall|i: int| 0 <= i < self@.offers.len() implies offer_ok(
                self@.listings,
                #[trigger] self@.offers[i],
            ) by {
                if i < oi as int {
                    assert(self@.offers[i] == m0.offers[i]);
                } else {
                    assert(self@.offers[i] == m0.offers[i + 1]);
                }
            }
            assert forall|i: int, j: int|
                0 <= i < j < self@.offers.len() implies !(self@.offers[i].listing_id
                == self@.offers[j].listing_id && self@.offers[i].offering_account_id
                == self@.offers[j].offering_account_id) by {
                let i0 = if i < oi as int {
                    i
                } else {
                    i + 1
                };
                let j0 = if j < oi as int {
                    j
                } else {
                    j + 1
                };
                assert(self@.offers[i] == m0.offers[i0]);
                assert(self@.offers[j] == m0.offers[j0]);
            }
            assert(wf(m1));
            assert(m1.permissions == m0.permissions.push(pv));
            assert(self@.permissions == m1.permissions);
            assert(wf(self@));
        }
        let ghost mnext = self@;
        let ghost lv = m0.listings[li as int];
        let mut transfers: Vec<ScheduledTransfer> = Vec::new();
        if let Some(price) = offer_price {
            let payees: Vec<AccountId> = match self.payout_policy {
                PayoutPolicy::PerLocator => provider_accounts(&self.listings[li].tokens),
                PayoutPolicy::PerDistinctProvider => distinct_accounts(&self.listings[li].tokens),
            };
            let ghost payees_v = payee_list(lv.tokens, m0.payout_policy);
            proof {
                assert(self.listings[li as int]@ == lv);
                assert(lv.tokens.len() > 0);
                if m0.payout_policy is PerDistinctProvider {
                    lemma_distinct_providers_nonempty(lv.tokens);
                }
                assert(payees.deep_view() == payees_v);
                assert(payees_v.len() >= 1);
            }
            let pool = provider_pool_exec(price);
            let share = pool / (payees.len() as u128);
            let ghost share_v = (provider_pool(price) / (payees_v.len() as int)) as u128;
            proof {
                assert(share == share_v);
            }
            let mut k: usize = 0;
            while k < payees.len()
                invariant
                    self@ == mnext,
                    wf(self@),
                    li < self.listings.len(),
                    self.listings[li as int]@ == lv,
                    payees.deep_view() == payees_v,
                    payees_v.len() == payees.len(),
                    k <= payees.len(),
                    share == share_v,
                    transfers.deep_view().len() == k,
                    forall|t: int|
                        #![trigger transfers.deep_view()[t]]
                        0 <= t < k ==> transfers.deep_view()[t] == (TransferV {
                            account_id: payees_v[t],
                            amount: share_v,
                        }),
                decreases payees.len() - k,
            {
                let ghost prev = transfers.deep_view();
                transfers.push(
                    ScheduledTransfer { account_id: payees[k].clone(), amount: share },
                );
                proof {
                    assert(transfers.deep_view() =~= prev.push(
                        TransferV { account_id: payees_v[k as int], amount: share_v },
                    ));
                }
                k = k + 1;
            }
            let owner_share = owner_amount_exec(price);
            let ghost prev = transfers.deep_view();
            transfers.push(
                ScheduledTransfer {
                    account_id: self.listings[li].account_id.clone(),
                    amount: owner_share,
                },
            );
            proof {
                assert(transfers.deep_view() =~= prev.push(
                    TransferV { account_id: lv.account_id, amount: owner_amount(price) as u128 },
                ));
                assert(transfers.deep_view() =~= accept_offer_transfers(m0, listing_id, pv));
            }
        } else {
            proof {
                assert(transfers.deep_view() =~= accept_offer_transfers(m0, listing_id, pv));
            }
        }
        Ok(transfers)
    }
}

} // verus!
