//! The marketplace state and its constructors and lookups.

use vstd::prelude::*;
use crate::model::{
    account_has_offers, has_listing, has_offer, has_permission, lemma_first_where,
    lemma_first_where_at, listing_index, listing_pred, offer_index, offer_pred, perm_index,
    perm_pred, wf, ContractV,
};
use crate::types::{
    AccountId, ListingId, PayoutPolicy, SBTListing, SBTListingOffer, SBTPermission,
    SBTPermissionsContractMetadata, Signature,
};

verus! {

/// The whole marketplace: the three primary stores and the configuration
/// they are read under. All derived views (by owner, by bidder, by seller,
/// by token) are computed from these stores, so they cannot fall out of
/// step with them.
pub struct Contract {
    pub contract_metadata: SBTPermissionsContractMetadata,
    pub owner_id: AccountId,
    pub payout_policy: PayoutPolicy,
    pub listings: Vec<SBTListing>,
    pub offers: Vec<SBTListingOffer>,
    pub permissions: Vec<SBTPermission>,
}

impl View for Contract {
    type V = ContractV;

    open spec fn view(&self) -> ContractV {
        ContractV {
            owner_id: self.owner_id@,
            metadata: self.contract_metadata,
            payout_policy: self.payout_policy,
            listings: self.listings.deep_view(),
            offers: self.offers.deep_view(),
            permissions: self.permissions.deep_view(),
        }
    }
}

impl Contract {
    /// The state invariant; constructors establish it and every operation
    /// preserves it.
    pub open spec fn inv(&self) -> bool {
        wf(self@)
    }

    /// An empty marketplace under the given administrator and metadata,
    /// paying providers once per locator occurrence.
    pub fn new(owner_id: AccountId, metadata: SBTPermissionsContractMetadata) -> (r: Contract)
        ensures
            r.inv(),
            r@.owner_id == owner_id@,
            r@.metadata == metadata,
            r@.payout_policy == PayoutPolicy::PerLocator,
            r@.listings =~= Seq::<crate::types::ListingV>::empty(),
            r@.offers =~= Seq::<crate::types::OfferV>::empty(),
            r@.permissions =~= Seq::<crate::types::PermissionV>::empty(),
    {
        Contract {
            contract_metadata: metadata,
            owner_id,
            payout_policy: PayoutPolicy::PerLocator,
            listings: Vec::new(),
            offers: Vec::new(),
            permissions: Vec::new(),
        }
    }

    /// As [`Contract::new`], with the provider payout policy chosen by the
    /// caller.
    pub fn new_with_policy(
        owner_id: AccountId,
        metadata: SBTPermissionsContractMetadata,
        policy: PayoutPolicy,
    ) -> (r: Contract)
        ensures
            r.inv(),
            r@.owner_id == owner_id@,
            r@.metadata == metadata,
            r@.payout_policy == policy,
            r@.listings =~= Seq::<crate::types::ListingV>::empty(),
            r@.offers =~= Seq::<crate::types::OfferV>::empty(),
            r@.permissions =~= Seq::<crate::types::PermissionV>::empty(),
    {
        Contract {
            contract_metadata: metadata,
            owner_id,
            payout_policy: policy,
            listings: Vec::new(),
            offers: Vec::new(),
            permissions: Vec::new(),
        }
    }

    /// Index of the listing with the given id in the listing store.
    pub(crate) fn find_listing_idx(&self, id: ListingId) -> (r: Option<usize>)
        ensures
            match r {
                Some(i) => i < self.listings.len() && listing_index(self@.listings, id) == i as int,
                None => !has_listing(self@.listings, id),
            },
    {
        let ghost ls = self@.listings;
        let mut i: usize = 0;
        while i < self.listings.len()
            invariant
                i <= self.listings.len(),
                ls == self@.listings,
                ls.len() == self.listings.len(),
                forall|k: int| 0 <= k < i ==> ls[k].id != id,
            decreases self.listings.len() - i,
        {
            if self.listings[i].id == id {
                proof {
                    lemma_first_where_at(ls, listing_pred(id), i as int);
                }
                return Some(i);
            }
            i = i + 1;
        }
        proof {
            lemma_first_where(ls, listing_pred(id));
        }
        None
    }

    /// Index of the offer by `account` on `listing_id` in the offer store.
    pub(crate) fn find_offer_idx(&self, listing_id: ListingId, account: &AccountId) -> (r: Option<
        usize,
    >)
        ensures
            match r {
                Some(i) => i < self.offers.len() && offer_index(self@.offers, listing_id, account@)
                    == i as int,
                None => !has_offer(self@.offers, listing_id, account@),
            },
    {
        let ghost os = self@.offers;
        let mut i: usize = 0;
        while i < self.offers.len()
            invariant
                i <= self.offers.len(),
                os == self@.offers,
                os.len() == self.offers.len(),
                forall|k: int| 0 <= k < i
                    ==> !(os[k].listing_id == listing_id && os[k].offering_account_id == account@),
            decreases self.offers.len() - i,
        {
            if self.offers[i].listing_id == listing_id && self.offers[i].offering_account_id
                == *account {
                proof {
                    lemma_first_where_at(os, offer_pred(listing_id, account@), i as int);
                }
                return Some(i);
            }
            i = i + 1;
        }
        proof {
            lemma_first_where(os, offer_pred(listing_id, account@));
        }
        None
    }

    /// Whether `account` has any pending offer on any listing.
    pub(crate) fn account_has_any_offer(&self, account: &AccountId) -> (r: bool)
        ensures
            r == account_has_offers(self@.offers, account@),
    {
        let ghost os = self@.offers;
        let mut i: usize = 0;
        while i < self.offers.len()
            invariant
                i <= self.offers.len(),
                os == self@.offers,
                os.len() == self.offers.len(),
                forall|k: int| 0 <= k < i ==> os[k].offering_account_id != account@,
            decreases self.offers.len() - i,
        {
            if self.offers[i].offering_account_id == *account {
                proof {
                    assert(os[i as int].offering_account_id == account@);
                }
                return true;
            }
            i = i + 1;
        }
        false
    }

    /// Index of the permission with the given signature in the permission
    /// store.
    pub(crate) fn find_permission_idx(&self, signature: &Signature) -> (r: Option<usize>)
        ensures
            match r {
                Some(i) => i < self.permissions.len() && perm_index(self@.permissions, signature@)
                    == i as int,
                None => !has_permission(self@.permissions, signature@),
            },
    {
        let ghost ps = self@.permissions;
        let mut i: usize = 0;
        while i < self.permissions.len()
            invariant
                i <= self.permissions.len(),
                ps == self@.permissions,
                ps.len() == self.permissions.len(),
                forall|k: int| 0 <= k < i ==> ps[k].signature != signature@,
            decreases self.permissions.len() - i,
        {
            if self.permissions[i].signature == *signature {
                proof {
                    lemma_first_where_at(ps, perm_pred(signature@), i as int);
                }
                return Some(i);
            }
            i = i + 1;
        }
        proof {
            lemma_first_where(ps, perm_pred(signature@));
        }
        None
    }
}

impl Default for Contract {
    /// The default marketplace of the reference deployment: administered by
    /// the `default` account, with its published metadata, and paying
    /// providers once per locator occurrence.
    fn default() -> (r: Contract)
        ensures
            r.inv(),
            r@.owner_id == "default"@,
            r@.metadata.spec_version@ == "sbt-permissions-0.0.1"@,
            r@.payout_policy == PayoutPolicy::PerLocator,
            r@.listings =~= Seq::<crate::types::ListingV>::empty(),
            r@.offers =~= Seq::<crate::types::OfferV>::empty(),
            r@.permissions =~= Seq::<crate::types::PermissionV>::empty(),
    {
        Contract::new(
            String::from_str("default"),
            SBTPermissionsContractMetadata {
                spec_version: String::from_str("sbt-permissions-0.0.1"),
                name: Some(String::from_str("sbt-marketplace-nearcon")),
                symbol: Some(String::from_str("NCMP")),
                base_uri: None,
                reference: None,
            },
        )
    }
}

} // verus!
