//! The data model: token locators, permissions, listings, offers, and the
//! transfer descriptors that settlement emits.
//!
//! Each executable type has a mathematical view (`...V`) over `Seq` and plain
//! values; all contracts in this crate are stated over those views.

use vstd::prelude::*;

verus! {

/// A token identifier within one issuing contract.
pub type TokenId = String;

/// The signature of a permission; permissions are keyed by it.
pub type Signature = String;

/// A derived listing identity; see [`crate::ids`].
pub type ListingId = u64;

/// An account identifier, as furnished by the invocation envelope.
pub type AccountId = String;

/// Mathematical view of [`SBTTokenLocator`].
pub ghost struct TokenLocatorV {
    pub chain_id: Seq<char>,
    pub sbt_contract_id: Seq<char>,
    pub token_id: Seq<char>,
}

/// A compound key identifying one soulbound token instance:
/// the chain it lives on, the contract that issued it, and its token id.
/// Two locators are equal exactly when all three fields match.
#[derive(Debug)]
pub struct SBTTokenLocator {
    pub chain_id: String,
    pub sbt_contract_id: AccountId,
    pub token_id: TokenId,
}

impl View for SBTTokenLocator {
    type V = TokenLocatorV;

    open spec fn view(&self) -> TokenLocatorV {
        TokenLocatorV {
            chain_id: self.chain_id@,
            sbt_contract_id: self.sbt_contract_id@,
            token_id: self.token_id@,
        }
    }
}

impl DeepView for SBTTokenLocator {
    type V = TokenLocatorV;

    open spec fn deep_view(&self) -> TokenLocatorV {
        self.view()
    }
}

impl Clone for SBTTokenLocator {
    fn clone(&self) -> (res: Self)
        ensures
            res == *self,
    {
        SBTTokenLocator {
            chain_id: self.chain_id.clone(),
            sbt_contract_id: self.sbt_contract_id.clone(),
            token_id: self.token_id.clone(),
        }
    }
}

impl SBTTokenLocator {
    /// The key under which the permission index groups locators:
    /// the (chain, issuing contract) pair.
    pub fn contract_key(&self) -> (r: (String, AccountId))
        ensures
            r.0@ == self@.chain_id,
            r.1@ == self@.sbt_contract_id,
    {
        (self.chain_id.clone(), self.sbt_contract_id.clone())
    }
}

/// True exactly when the two locators agree on all three fields.
pub fn locator_eq(a: &SBTTokenLocator, b: &SBTTokenLocator) -> (r: bool)
    ensures
        r == (a@ == b@),
{
    let r = a.chain_id == b.chain_id && a.sbt_contract_id == b.sbt_contract_id
        && a.token_id == b.token_id;
    r
}

/// Mathematical view of [`PermissionBody`].
pub ghost struct PermissionBodyV {
    pub sbt_tokens: Seq<TokenLocatorV>,
    pub accounts: Seq<Seq<char>>,
}

/// What a permission grants: a list of token locators, and the accounts
/// that are given access to them.
#[derive(Debug)]
pub struct PermissionBody {
    pub sbt_tokens: Vec<SBTTokenLocator>,
    pub accounts: Vec<AccountId>,
}

impl View for PermissionBody {
    type V = PermissionBodyV;

    open spec fn view(&self) -> PermissionBodyV {
        PermissionBodyV { sbt_tokens: self.sbt_tokens.deep_view(), accounts: self.accounts.deep_view() }
    }
}

impl DeepView for PermissionBody {
    type V = PermissionBodyV;

    open spec fn deep_view(&self) -> PermissionBodyV {
        self.view()
    }
}

impl Clone for PermissionBody {
    fn clone(&self) -> (res: Self)
        ensures
            res@ == self@,
    {
        let res = PermissionBody {
            sbt_tokens: self.sbt_tokens.clone(),
            accounts: self.accounts.clone(),
        };
        proof {
            assert(res.sbt_tokens.deep_view() =~= self.sbt_tokens.deep_view());
            assert(res.accounts.deep_view() =~= self.accounts.deep_view());
        }
        res
    }
}

/// Mathematical view of [`SBTPermission`].
pub ghost struct PermissionV {
    pub body: PermissionBodyV,
    pub signature: Seq<char>,
    pub public_key: Seq<char>,
}

/// A signed capability. Immutable once created; uniqueness is enforced by
/// the signature value.
#[derive(Debug)]
pub struct SBTPermission {
    pub body: PermissionBody,
    pub signature: Signature,
    pub public_key: String,
}

impl View for SBTPermission {
    type V = PermissionV;

    open spec fn view(&self) -> PermissionV {
        PermissionV { body: self.body@, signature: self.signature@, public_key: self.public_key@ }
    }
}

impl DeepView for SBTPermission {
    type V = PermissionV;

    open spec fn deep_view(&self) -> PermissionV {
        self.view()
    }
}

impl Clone for SBTPermission {
    fn clone(&self) -> (res: Self)
        ensures
            res@ == self@,
    {
        SBTPermission {
            body: self.body.clone(),
            signature: self.signature.clone(),
            public_key: self.public_key.clone(),
        }
    }
}

/// Mathematical view of [`SBTListing`].
pub ghost struct ListingV {
    pub id: ListingId,
    pub account_id: Seq<char>,
    pub tokens: Seq<TokenLocatorV>,
    pub price: Option<u128>,
}

/// A seller's published offer to issue a permission over a fixed, non-empty
/// token bundle, at an optional asking price.
#[derive(Debug)]
pub struct SBTListing {
    pub id: ListingId,
    pub account_id: AccountId,
    pub tokens: Vec<SBTTokenLocator>,
    pub price: Option<u128>,
}

impl View for SBTListing {
    type V = ListingV;

    open spec fn view(&self) -> ListingV {
        ListingV {
            id: self.id,
            account_id: self.account_id@,
            tokens: self.tokens.deep_view(),
            price: self.price,
        }
    }
}

impl DeepView for SBTListing {
    type V = ListingV;

    open spec fn deep_view(&self) -> ListingV {
        self.view()
    }
}

impl Clone for SBTListing {
    fn clone(&self) -> (res: Self)
        ensures
            res@ == self@,
    {
        let res = SBTListing {
            id: self.id,
            account_id: self.account_id.clone(),
            tokens: self.tokens.clone(),
            price: self.price,
        };
        proof {
            assert(res.tokens.deep_view() =~= self.tokens.deep_view());
        }
        res
    }
}

/// Mathematical view of [`SBTListingOffer`].
pub ghost struct OfferV {
    pub listing_id: ListingId,
    pub offering_account_id: Seq<char>,
    pub offered_price: Option<u128>,
}

/// A buyer's escrowed bid on one listing. The price is `None` exactly when
/// the escrowed deposit was zero, else the deposited amount.
#[derive(Debug)]
pub struct SBTListingOffer {
    pub listing_id: ListingId,
    pub offering_account_id: AccountId,
    pub offered_price: Option<u128>,
}

impl View for SBTListingOffer {
    type V = OfferV;

    open spec fn view(&self) -> OfferV {
        OfferV {
            listing_id: self.listing_id,
            offering_account_id: self.offering_account_id@,
            offered_price: self.offered_price,
        }
    }
}

impl DeepView for SBTListingOffer {
    type V = OfferV;

    open spec fn deep_view(&self) -> OfferV {
        self.view()
    }
}

impl Clone for SBTListingOffer {
    fn clone(&self) -> (res: Self)
        ensures
            res == *self,
    {
        SBTListingOffer {
            listing_id: self.listing_id,
            offering_account_id: self.offering_account_id.clone(),
            offered_price: self.offered_price,
        }
    }
}

/// Descriptive metadata served by the permission ledger.
#[derive(Debug)]
pub struct SBTPermissionsContractMetadata {
    pub spec_version: String,
    pub name: Option<String>,
    pub symbol: Option<String>,
    pub base_uri: Option<String>,
    pub reference: Option<String>,
}

impl Clone for SBTPermissionsContractMetadata {
    fn clone(&self) -> (res: Self)
        ensures
            res == *self,
    {
        SBTPermissionsContractMetadata {
            spec_version: self.spec_version.clone(),
            name: self.name.clone(),
            symbol: self.symbol.clone(),
            base_uri: self.base_uri.clone(),
            reference: self.reference.clone(),
        }
    }
}

/// How the providers' share of a settled payment is divided.
///
/// The provider pool is split by integer division; whether the divisor
/// counts every locator occurrence or only distinct issuing contracts is a
/// marketplace policy, configured per contract instance.
#[derive(Clone, Copy, Debug, PartialEq, Eq, Structural)]
pub enum PayoutPolicy {
    /// Divide by the number of token locators; a provider appearing in
    /// several locators is paid once per occurrence.
    PerLocator,
    /// Divide by the number of distinct issuing contracts; each provider
    /// is paid exactly once.
    PerDistinctProvider,
}

/// Mathematical view of [`ScheduledTransfer`].
pub ghost struct TransferV {
    pub account_id: Seq<char>,
    pub amount: u128,
}

/// An effect descriptor for one asynchronous value transfer: settlement
/// emits these, and the hosting shell executes them after the call's state
/// changes are committed. Their later success or failure never reaches back
/// into the marketplace state.
#[derive(Debug)]
pub struct ScheduledTransfer {
    pub account_id: AccountId,
    pub amount: u128,
}

impl View for ScheduledTransfer {
    type V = TransferV;

    open spec fn view(&self) -> TransferV {
        TransferV { account_id: self.account_id@, amount: self.amount }
    }
}

impl DeepView for ScheduledTransfer {
    type V = TransferV;

    open spec fn deep_view(&self) -> TransferV {
        self.view()
    }
}

} // verus!
