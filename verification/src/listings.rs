//! Creating and enumerating listings.

use vstd::prelude::*;
use crate::contract::Contract;
use crate::errors::MarketError;
use crate::ids::{get_listing_id, listing_id_of};
use crate::model::{
    has_listing, lemma_first_where, lemma_first_where_push, listing_at, listing_index,
    listing_pred, offer_ok, ContractV,
};
use crate::types::{AccountId, ListingId, ListingV, SBTListing, SBTTokenLocator, TokenLocatorV};

verus! {

/// Why `add_listing` is refused, if it is: an empty token set, or an id
/// collision with a stored listing.
pub open spec fn add_listing_err(
    m: ContractV,
    tokens: Seq<TokenLocatorV>,
    caller: Seq<char>,
) -> Option<MarketError> {
    if tokens.len() == 0 {
        Some(MarketError::EmptyTokenSet)
    } else if has_listing(m.listings, listing_id_of(tokens, caller)) {
        Some(MarketError::DuplicateListing)
    } else {
        None
    }
}

/// The listing that a successful `add_listing` stores.
pub open spec fn added_listing(
    tokens: Seq<TokenLocatorV>,
    price: Option<u128>,
    caller: Seq<char>,
) -> ListingV {
    ListingV { id: listing_id_of(tokens, caller), account_id: caller, tokens, price }
}

/// The state after a successful `add_listing`: the new listing appended to
/// the listing store, everything else untouched.
pub open spec fn add_listing_next(
    m: ContractV,
    tokens: Seq<TokenLocatorV>,
    price: Option<u128>,
    caller: Seq<char>,
) -> ContractV {
    ContractV { listings: m.listings.push(added_listing(tokens, price, caller)), ..m }
}

impl Contract {
    /// All current listings, in creation order: none omitted, none
    /// duplicated.
    pub fn view_listings(&self) -> (r: Vec<SBTListing>)
        ensures
            r.deep_view() == self@.listings,
    {
        let r = self.listings.clone();
        proof {
            assert(r.deep_view() =~= self.listings.deep_view());
        }
        r
    }

    /// Publishes a listing of `tokens` by `caller` at an optional asking
    /// price.
    ///
    /// Fails `EmptyTokenSet` on an empty token set, and `DuplicateListing`
    /// when a listing under the same derived id is already stored (in
    /// particular, when `caller` lists the identical ordered token set
    /// twice). On success the returned id is the one derived from
    /// `(tokens, caller)`, and the listing is appended to the store; on
    /// failure the state is unchanged.
    pub fn add_listing(
        &mut self,
        tokens: Vec<SBTTokenLocator>,
        price: Option<u128>,
        caller: AccountId,
    ) -> (r: Result<ListingId, MarketError>)
        requires
            old(self).inv(),
        ensures
            final(self).inv(),
            match r {
                Ok(id) => {
                    &&& add_listing_err(old(self)@, tokens.deep_view(), caller@) is None
                    &&& id == listing_id_of(tokens.deep_view(), caller@)
                    &&& final(self)@ == add_listing_next(
                        old(self)@,
                        tokens.deep_view(),
                        price,
                        caller@,
                    )
                },
                Err(e) => {
                    &&& add_listing_err(old(self)@, tokens.deep_view(), caller@) == Some(e)
                    &&& final(self)@ == old(self)@
                },
            },
    {
        if tokens.len() == 0 {
            return Err(MarketError::EmptyTokenSet);
        }
        let id = get_listing_id(&tokens, &caller);
        if self.find_listing_idx(id).is_some() {
            return Err(MarketError::DuplicateListing);
        }
        let ghost m0 = self@;
        let ghost tv = tokens.deep_view();
        let listing = SBTListing { id, account_id: caller, tokens, price };
        let ghost lv = listing@;
        self.listings.push(listing);
        proof {
            lemma_first_where(m0.listings, listing_pred(id));
            assert(self@.listings =~= m0.listings.push(lv));
            assert(self@.offers =~= m0.offers);
            assert(self@.permissions =~= m0.permissions);
            assert(lv == added_listing(tv, price, caller@));
            assert(self@ == add_listing_next(m0, tv, price, caller@));
            // the stores stay well formed: the new id was not present, and
            // every stored offer still finds its unchanged listing
            assert forall|i: int| 0 <= i < self@.offers.len() implies offer_ok(
                self@.listings,
                #[trigger] self@.offers[i],
            ) by {
                let o = m0.offers[i];
                assert(offer_ok(m0.listings, o));
                lemma_first_where(m0.listings, listing_pred(o.listing_id));
                lemma_first_where_push(m0.listings, listing_pred(o.listing_id), lv);
                assert(listing_index(self@.listings, o.listing_id) == listing_index(
                    m0.listings,
                    o.listing_id,
                ));
                assert(listing_at(self@.listings, o.listing_id) == listing_at(
                    m0.listings,
                    o.listing_id,
                ));
            }
        }
        Ok(id)
    }
}

} // verus!
