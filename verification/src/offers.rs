//! Recording and enumerating escrowed offers.

use vstd::prelude::*;
use vstd::pervasive::unreached;
use crate::contract::Contract;
use crate::errors::MarketError;
use crate::model::{
    has_listing, has_offer, lemma_first_where, listing_at, offer_ok, offer_pred, ContractV,
};
use crate::types::{AccountId, ListingId, OfferV, SBTListingOffer};

verus! {

/// Why `add_offer` is refused, if it is: a missing listing, a bid on one's
/// own listing, a second bid on the same listing, or a deposit below the
/// asking price.
pub open spec fn add_offer_err(
    m: ContractV,
    listing_id: u64,
    caller: Seq<char>,
    deposit: u128,
) -> Option<MarketError> {
    if !has_listing(m.listings, listing_id) {
        Some(MarketError::NoSuchListing)
    } else if listing_at(m.listings, listing_id).account_id == caller {
        Some(MarketError::SelfOffer)
    } else if has_offer(m.offers, listing_id, caller) {
        Some(MarketError::DuplicateOffer)
    } else {
        match listing_at(m.listings, listing_id).price {
            Some(p) => if deposit < p {
                Some(MarketError::InsufficientDeposit)
            } else {
                None
            },
            None => None,
        }
    }
}

/// The offer that a successful `add_offer` stores: a zero deposit is
/// recorded as no price, any other deposit as the offered price.
pub open spec fn added_offer(listing_id: u64, caller: Seq<char>, deposit: u128) -> OfferV {
    OfferV {
        listing_id,
        offering_account_id: caller,
        offered_price: if deposit > 0 {
            Some(deposit)
        } else {
            None
        },
    }
}

/// The state after a successful `add_offer`: the new offer appended to the
/// offer store, everything else untouched.
pub open spec fn add_offer_next(
    m: ContractV,
    listing_id: u64,
    caller: Seq<char>,
    deposit: u128,
) -> ContractV {
    ContractV { offers: m.offers.push(added_offer(listing_id, caller, deposit)), ..m }
}

/// The offers received by `seller`: every stored offer whose listing is
/// owned by `seller`, in creation order. This is the seller-keyed offer
/// index, derived from the primary stores.
pub open spec fn seller_offers(
    ls: Seq<crate::types::ListingV>,
    os: Seq<OfferV>,
    seller: Seq<char>,
) -> Seq<OfferV>
    decreases os.len(),
{
    if os.len() == 0 {
        Seq::empty()
    } else {
        let rest = seller_offers(ls, os.drop_last(), seller);
        if listing_at(ls, os.last().listing_id).account_id == seller {
            rest.push(os.last())
        } else {
            rest
        }
    }
}

impl Contract {
    /// Places an escrowed offer of `deposit` by `caller` on `listing_id`.
    ///
    /// Fails `NoSuchListing` when the listing is absent, `SelfOffer` when
    /// `caller` owns the listing, `DuplicateOffer` when `caller` already
    /// has a pending offer on it, and `InsufficientDeposit` when the
    /// listing carries a price above `deposit`. On success the offer is
    /// appended to the offer store, with `deposit` as its price when
    /// positive and no price when zero; on failure the state is unchanged.
    pub fn add_offer(
        &mut self,
        listing_id: ListingId,
        caller: AccountId,
        deposit: u128,
    ) -> (r: Result<(), MarketError>)
        requires
            old(self).inv(),
        ensures
            final(self).inv(),
            match r {
                Ok(_) => {
                    &&& add_offer_err(old(self)@, listing_id, caller@, deposit) is None
                    &&& final(self)@ == add_offer_next(old(self)@, listing_id, caller@, deposit)
                },
                Err(e) => {
                    &&& add_offer_err(old(self)@, listing_id, caller@, deposit) == Some(e)
                    &&& final(self)@ == old(self)@
                },
            },
    {
        let li = match self.find_listing_idx(listing_id) {
            Some(i) => i,
            None => {
                return Err(MarketError::NoSuchListing);
            },
        };
        proof {
            assert(listing_at(self@.listings, listing_id) == self.listings[li as int]@);
        }
        if self.listings[li].account_id == caller {
            return Err(MarketError::SelfOffer);
        }
        if self.find_offer_idx(listing_id, &caller).is_some() {
            return Err(MarketError::DuplicateOffer);
        }
        if let Some(p) = self.listings[li].price {
            if deposit < p {
                return Err(MarketError::InsufficientDeposit);
            }
        }
        let ghost m0 = self@;
        let offer = SBTListingOffer {
            listing_id,
            offering_account_id: caller,
            offered_price: if deposit > 0 {
                Some(deposit)
            } else {
                None
            },
        };
        let ghost ov = offer@;
        self.offers.push(offer);
        proof {
            lemma_first_where(m0.offers, offer_pred(listing_id, ov.offering_account_id));
            assert(self@.listings =~= m0.listings);
            assert(self@.offers =~= m0.offers.push(ov));
            assert(self@.permissions =~= m0.permissions);
            assert(ov == added_offer(listing_id, ov.offering_account_id, deposit));
            assert(self@ == add_offer_next(m0, listing_id, ov.offering_account_id, deposit));
        }
        Ok(())
    }

    /// The offers received by `account`: every stored offer placed against
    /// one of `account`'s listings, hydrated from the offer store.
    pub fn view_offers(&self, account_id: &AccountId) -> (r: Vec<SBTListingOffer>)
        requires
            self.inv(),
        ensures
            r.deep_view() == seller_offers(self@.listings, self@.offers, account_id@),
    {
        let ghost ls = self@.listings;
        let ghost os = self@.offers;
        let mut r: Vec<SBTListingOffer> = Vec::new();
        let mut i: usize = 0;
        proof {
            assert(r.deep_view() =~= seller_offers(ls, os.take(0), account_id@));
        }
        while i < self.offers.len()
            invariant
                self.inv(),
                i <= self.offers.len(),
                ls == self@.listings,
                os == self@.offers,
                os.len() == self.offers.len(),
                r.deep_view() == seller_offers(ls, os.take(i as int), account_id@),
            decreases self.offers.len() - i,
        {
            let ghost prev = r.deep_view();
            let li = match self.find_listing_idx(self.offers[i].listing_id) {
                Some(j) => j,
                None => {
                    proof {
                        assert(offer_ok(ls, os[i as int]));
                    }
                    unreached()
                },
            };
            proof {
                assert(listing_at(ls, os[i as int].listing_id) == self.listings[li as int]@);
            }
            if self.listings[li].account_id == *account_id {
                r.push(self.offers[i].clone());
                proof {
                    assert(r.deep_view() =~= prev.push(os[i as int]));
                }
            }
            proof {
                let t = os.take(i + 1);
                assert(t.drop_last() =~= os.take(i as int));
                assert(t.last() == os[i as int]);
            }
            i = i + 1;
        }
        proof {
            assert(os.take(os.len() as int) =~= os);
        }
        r
    }

    /// The offers received by `caller` on their own listings; the same
    /// view as [`Contract::view_offers`] for the calling account.
    pub fn view_own_offers(&self, caller: &AccountId) -> (r: Vec<SBTListingOffer>)
        requires
            self.inv(),
        ensures
            r.deep_view() == seller_offers(self@.listings, self@.offers, caller@),
    {
        self.view_offers(caller)
    }
}

} // verus!
