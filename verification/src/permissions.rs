//! Storing signed permissions and serving the token-keyed permission index.

use vstd::prelude::*;
use vstd::pervasive::unreached;
use crate::contract::Contract;
use crate::errors::MarketError;
use crate::model::{has_permission, lemma_first_where, perm_at, perm_pred, ContractV};
use crate::types::{
    locator_eq, PermissionV, SBTPermission, SBTPermissionsContractMetadata, SBTTokenLocator,
    Signature, TokenLocatorV,
};

verus! {

/// The signatures that one permission body contributes to the index entry
/// of `key`: one occurrence of `sig` per locator in the body equal to
/// `key`, in body order.
pub open spec fn body_sigs(
    tokens: Seq<TokenLocatorV>,
    sig: Seq<char>,
    key: TokenLocatorV,
) -> Seq<Seq<char>>
    decreases tokens.len(),
{
    if tokens.len() == 0 {
        Seq::empty()
    } else {
        let rest = body_sigs(tokens.drop_last(), sig, key);
        if tokens.last() == key {
            rest.push(sig)
        } else {
            rest
        }
    }
}

/// The signature list indexed under the locator `key`: what every stored
/// permission contributes, in creation order. This is the token-keyed
/// permission index, derived from the permission store.
pub open spec fn token_sigs(ps: Seq<PermissionV>, key: TokenLocatorV) -> Seq<Seq<char>>
    decreases ps.len(),
{
    if ps.len() == 0 {
        Seq::empty()
    } else {
        token_sigs(ps.drop_last(), key) + body_sigs(
            ps.last().body.sbt_tokens,
            ps.last().signature,
            key,
        )
    }
}

/// The reserved wildcard token id: a permission indexed under it applies
/// to every token of its contract.
pub open spec fn wildcard() -> Seq<char> {
    "*"@
}

/// The wildcard locator of `token`'s issuing contract.
pub open spec fn wildcard_key(token: TokenLocatorV) -> TokenLocatorV {
    TokenLocatorV { token_id: wildcard(), ..token }
}

/// The full signature list that `sbt_permissions` pages over: the entry
/// under the token's exact id, then the entry under its contract's
/// wildcard id. The two are concatenated, not merged: a token covered both
/// specifically and by wildcard appears under both.
pub open spec fn sbt_permission_sigs(m: ContractV, token: TokenLocatorV) -> Seq<Seq<char>> {
    token_sigs(m.permissions, token) + token_sigs(m.permissions, wildcard_key(token))
}

/// Every signature in a body's contribution is that body's signature.
pub proof fn lemma_body_sigs_value(tokens: Seq<TokenLocatorV>, sig: Seq<char>, key: TokenLocatorV)
    ensures
        forall|k: int| 0 <= k < body_sigs(tokens, sig, key).len() ==> body_sigs(tokens, sig, key)[k]
            == sig,
    decreases tokens.len(),
{
    if tokens.len() > 0 {
        lemma_body_sigs_value(tokens.drop_last(), sig, key);
        let rest = body_sigs(tokens.drop_last(), sig, key);
        let all = body_sigs(tokens, sig, key);
        assert forall|k: int| 0 <= k < all.len() implies all[k] == sig by {
            if k < rest.len() {
                assert(all[k] == rest[k]);
            }
        }
    }
}

/// A body that contains `key` contributes at least one signature.
pub proof fn lemma_body_sigs_contains(
    tokens: Seq<TokenLocatorV>,
    sig: Seq<char>,
    key: TokenLocatorV,
)
    requires
        tokens.contains(key),
    ensures
        body_sigs(tokens, sig, key).len() >= 1,
    decreases tokens.len(),
{
    if tokens.last() == key {
    } else {
        assert(tokens.drop_last().contains(key)) by {
            let i = choose|i: int| 0 <= i < tokens.len() && tokens[i] == key;
            assert(tokens.drop_last()[i] == key);
        }
        lemma_body_sigs_contains(tokens.drop_last(), sig, key);
    }
}

/// Every signature indexed under `key` is the signature of a stored
/// permission.
pub proof fn lemma_token_sigs_are_stored(ps: Seq<PermissionV>, key: TokenLocatorV)
    ensures
        forall|k: int|
            #![trigger token_sigs(ps, key)[k]]
            0 <= k < token_sigs(ps, key).len() ==> exists|i: int|
                0 <= i < ps.len() && ps[i].signature == token_sigs(ps, key)[k],
    decreases ps.len(),
{
    if ps.len() > 0 {
        let head = ps.drop_last();
        let p = ps.last();
        lemma_token_sigs_are_stored(head, key);
        lemma_body_sigs_value(p.body.sbt_tokens, p.signature, key);
        let ts = token_sigs(ps, key);
        let pre = token_sigs(head, key);
        let post = body_sigs(p.body.sbt_tokens, p.signature, key);
        assert forall|k: int|
            #![trigger ts[k]]
            0 <= k < ts.len() implies exists|i: int| 0 <= i < ps.len() && ps[i].signature
            == ts[k] by {
            if k < pre.len() {
                assert(ts[k] == pre[k]);
                let i = choose|i: int| 0 <= i < head.len() && head[i].signature == pre[k];
                assert(ps[i].signature == ts[k]);
            } else {
                assert(ts[k] == post[k - pre.len()]);
                assert(ps[ps.len() - 1].signature == ts[k]);
            }
        }
    }
}

/// A stored permission whose body contains `key` appears in the index
/// entry of `key`.
pub proof fn lemma_token_sigs_contains(ps: Seq<PermissionV>, i: int, key: TokenLocatorV)
    requires
        0 <= i < ps.len(),
        ps[i].body.sbt_tokens.contains(key),
    ensures
        token_sigs(ps, key).contains(ps[i].signature),
    decreases ps.len(),
{
    let head = ps.drop_last();
    let p = ps.last();
    let pre = token_sigs(head, key);
    let post = body_sigs(p.body.sbt_tokens, p.signature, key);
    if i == ps.len() - 1 {
        lemma_body_sigs_contains(p.body.sbt_tokens, p.signature, key);
        lemma_body_sigs_value(p.body.sbt_tokens, p.signature, key);
        assert(token_sigs(ps, key)[pre.len() as int] == ps[i].signature);
    } else {
        lemma_token_sigs_contains(head, i, key);
        let k = choose|k: int| 0 <= k < pre.len() && pre[k] == head[i].signature;
        assert(token_sigs(ps, key)[k] == ps[i].signature);
    }
}

/// Appending one permission appends its contribution to every index entry.
pub proof fn lemma_token_sigs_push(ps: Seq<PermissionV>, p: PermissionV, key: TokenLocatorV)
    ensures
        token_sigs(ps.push(p), key) == token_sigs(ps, key) + body_sigs(
            p.body.sbt_tokens,
            p.signature,
            key,
        ),
{
    assert(ps.push(p).drop_last() =~= ps);
    assert(ps.push(p).last() == p);
}

/// Why `sbt_permissions` is refused, if it is: a zero limit.
pub open spec fn sbt_permissions_err(limit: Option<u64>) -> Option<MarketError> {
    if limit == Some(0u64) {
        Some(MarketError::ZeroLimit)
    } else {
        None
    }
}

/// The first index of the pagination window; zero when none is given.
pub open spec fn page_start(from_index: Option<u64>) -> int {
    match from_index {
        Some(f) => f as int,
        None => 0,
    }
}

/// How many entries the pagination window holds: none when the start lies
/// beyond the list, else up to `limit` of the remaining entries (all of
/// them when no limit is given).
pub open spec fn page_len(total: int, from_index: Option<u64>, limit: Option<u64>) -> int {
    let start = page_start(from_index);
    if start > total {
        0
    } else {
        match limit {
            Some(l) => if (l as int) < total - start {
                l as int
            } else {
                total - start
            },
            None => total - start,
        }
    }
}

/// What `sbt_permissions` returns: the pagination window over the
/// concatenated signature list of [`sbt_permission_sigs`], each signature
/// hydrated to its stored permission.
pub open spec fn permissions_page(
    m: ContractV,
    token: TokenLocatorV,
    from_index: Option<u64>,
    limit: Option<u64>,
) -> Seq<PermissionV> {
    let sigs = sbt_permission_sigs(m, token);
    Seq::new(
        page_len(sigs.len() as int, from_index, limit) as nat,
        |j: int| perm_at(m.permissions, sigs[page_start(from_index) + j]),
    )
}

/// Why `create_permission` is refused, if it is: a stored permission
/// already carries this signature.
pub open spec fn create_permission_err(m: ContractV, p: PermissionV) -> Option<MarketError> {
    if has_permission(m.permissions, p.signature) {
        Some(MarketError::DuplicateSignature)
    } else {
        None
    }
}

/// The state after a successful `create_permission`: the permission
/// appended to the permission store, everything else untouched. Every
/// token-keyed index entry follows, per [`lemma_token_sigs_push`].
pub open spec fn create_permission_next(m: ContractV, p: PermissionV) -> ContractV {
    ContractV { permissions: m.permissions.push(p), ..m }
}

impl Contract {
    /// The signature-verification hook: a policy decision that the stored
    /// ledger does not enforce. The reference behaviour accepts every
    /// signature; a deployment that wants to enforce verification replaces
    /// the hosting shell's call path, not this ledger.
    pub fn verify_permission(&self, _permission: &SBTPermission) -> (r: bool)
        ensures
            r,
    {
        true
    }

    /// Stores a signed permission, keyed by its signature.
    ///
    /// Fails `DuplicateSignature` when a permission with a byte-identical
    /// signature is already stored, leaving the state (and so every
    /// token-keyed index entry) unchanged. On success the permission is
    /// appended to the store; for every locator in its body, its signature
    /// is thereby appended to that locator's index entry.
    pub fn create_permission(&mut self, permission: SBTPermission) -> (r: Result<(), MarketError>)
        requires
            old(self).inv(),
        ensures
            final(self).inv(),
            match r {
                Ok(_) => {
                    &&& create_permission_err(old(self)@, permission@) is None
                    &&& final(self)@ == create_permission_next(old(self)@, permission@)
                },
                Err(e) => {
                    &&& create_permission_err(old(self)@, permission@) == Some(e)
                    &&& final(self)@ == old(self)@
                },
            },
    {
        self.verify_permission(&permission);
        if self.find_permission_idx(&permission.signature).is_some() {
            return Err(MarketError::DuplicateSignature);
        }
        let ghost m0 = self@;
        let ghost pv = permission@;
        self.permissions.push(permission);
        proof {
            lemma_first_where(m0.permissions, perm_pred(pv.signature));
            assert(self@.listings =~= m0.listings);
            assert(self@.offers =~= m0.offers);
            assert(self@.permissions =~= m0.permissions.push(pv));
            assert(self@ == create_permission_next(m0, pv));
        }
        Ok(())
    }

    /// The descriptive metadata of this permission ledger.
    pub fn sbt_permissions_metadata(&self) -> (r: SBTPermissionsContractMetadata)
        ensures
            r == self.contract_metadata,
    {
        self.contract_metadata.clone()
    }

    /// The signature list indexed under `key` alone.
    fn sigs_for_key(&self, key: &SBTTokenLocator) -> (r: Vec<Signature>)
        ensures
            r.deep_view() == token_sigs(self@.permissions, key@),
    {
        let ghost ps = self@.permissions;
        let mut r: Vec<Signature> = Vec::new();
        proof {
            assert(r.deep_view() =~= token_sigs(ps.take(0), key@));
        }
        let mut i: usize = 0;
        while i < self.permissions.len()
            invariant
                ps == self@.permissions,
                ps.len() == self.permissions.len(),
                i <= self.permissions.len(),
                r.deep_view() == token_sigs(ps.take(i as int), key@),
            decreases self.permissions.len() - i,
        {
            let ghost bts = ps[i as int].body.sbt_tokens;
            let ghost sig = ps[i as int].signature;
            let n = self.permissions[i].body.sbt_tokens.len();
            proof {
                assert(bts.len() == n);
                assert(r.deep_view() + body_sigs(bts.take(0), sig, key@) =~= r.deep_view());
            }
            let ghost base = r.deep_view();
            let mut j: usize = 0;
            while j < n
                invariant
                    ps == self@.permissions,
                    ps.len() == self.permissions.len(),
                    i < self.permissions.len(),
                    bts == ps[i as int].body.sbt_tokens,
                    sig == ps[i as int].signature,
                    n == self.permissions[i as int].body.sbt_tokens.len(),
                    bts.len() == n,
                    j <= n,
                    r.deep_view() == base + body_sigs(bts.take(j as int), sig, key@),
                decreases n - j,
            {
                let ghost prev = r.deep_view();
                if locator_eq(&self.permissions[i].body.sbt_tokens[j], key) {
                    r.push(self.permissions[i].signature.clone());
                    proof {
                        assert(r.deep_view() =~= prev.push(sig));
                    }
                }
                proof {
                    let t = bts.take(j + 1);
                    assert(t.drop_last() =~= bts.take(j as int));
                    assert(t.last() == bts[j as int]);
                    assert(base + body_sigs(bts.take(j as int), sig, key@) + (if bts[j as int]
                        == key@ {
                        seq![sig]
                    } else {
                        Seq::<Seq<char>>::empty()
                    }) =~= base + body_sigs(t, sig, key@));
                }
                j = j + 1;
            }
            proof {
                assert(bts.take(n as int) =~= bts);
                let t = ps.take(i + 1);
                assert(t.drop_last() =~= ps.take(i as int));
                assert(t.last() == ps[i as int]);
                assert(base + body_sigs(bts, sig, key@) =~= token_sigs(t, key@));
            }
            i = i + 1;
        }
        proof {
            assert(ps.take(ps.len() as int) =~= ps);
        }
        r
    }

    /// The full concatenated signature list for `token`: its exact entry,
    /// then its contract's wildcard entry.
    fn collect_token_sigs(&self, token: &SBTTokenLocator) -> (r: Vec<Signature>)
        ensures
            r.deep_view() == sbt_permission_sigs(self@, token@),
    {
        let mut r = self.sigs_for_key(token);
        let star = SBTTokenLocator {
            chain_id: token.chain_id.clone(),
            sbt_contract_id: token.sbt_contract_id.clone(),
            token_id: String::from_str("*"),
        };
        proof {
            assert(star@ == wildcard_key(token@));
        }
        let mut tail = self.sigs_for_key(&star);
        let ghost head_v = r.deep_view();
        let ghost tail_v = tail.deep_view();
        r.append(&mut tail);
        proof {
            assert(r.deep_view() =~= head_v + tail_v);
        }
        r
    }

    /// The permissions covering `token`: those indexed under its exact
    /// token id, then those indexed under its contract's wildcard id, in
    /// index order, paged by `from_index` and `limit`.
    ///
    /// Fails `ZeroLimit` when `limit` is zero. Returns the empty list when
    /// `from_index` lies beyond the available count.
    pub fn sbt_permissions(
        &self,
        token: &SBTTokenLocator,
        from_index: Option<u64>,
        limit: Option<u64>,
    ) -> (r: Result<Vec<SBTPermission>, MarketError>)
        requires
            self.inv(),
        ensures
            match r {
                Ok(v) => {
                    &&& sbt_permissions_err(limit) is None
                    &&& v.deep_view() == permissions_page(self@, token@, from_index, limit)
                },
                Err(e) => sbt_permissions_err(limit) == Some(e),
            },
    {
        if let Some(l) = limit {
            if l == 0 {
                return Err(MarketError::ZeroLimit);
            }
        }
        let sigs = self.collect_token_sigs(token);
        let ghost sv = sigs.deep_view();
        let ghost ps = self@.permissions;
        let start_u: u64 = match from_index {
            Some(f) => f,
            None => 0,
        };
        if start_u > sigs.len() as u64 {
            let out: Vec<SBTPermission> = Vec::new();
            proof {
                assert(out.deep_view() =~= permissions_page(self@, token@, from_index, limit));
            }
            return Ok(out);
        }
        let start = start_u as usize;
        let avail = sigs.len() - start;
        let take_n: usize = match limit {
            Some(l) => if l < avail as u64 {
                l as usize
            } else {
                avail
            },
            None => avail,
        };
        proof {
            assert(take_n as int == page_len(sv.len() as int, from_index, limit));
            lemma_token_sigs_are_stored(ps, token@);
            lemma_token_sigs_are_stored(ps, wildcard_key(token@));
        }
        let end = start + take_n;
        let mut out: Vec<SBTPermission> = Vec::new();
        let mut j: usize = start;
        while j < end
            invariant
                self.inv(),
                ps == self@.permissions,
                sv == sigs.deep_view(),
                sigs.len() == sv.len(),
                sv == sbt_permission_sigs(self@, token@),
                start <= j <= end,
                end <= sigs.len(),
                out.deep_view().len() == j - start,
                forall|k: int|
                    #![trigger out.deep_view()[k]]
                    0 <= k < j - start ==> out.deep_view()[k] == perm_at(ps, sv[start + k]),
            decreases end - j,
        {
            proof {
                // the signature under this index entry belongs to a stored
                // permission, under either the exact or the wildcard key
                lemma_token_sigs_are_stored(ps, token@);
                lemma_token_sigs_are_stored(ps, wildcard_key(token@));
                let exact = token_sigs(ps, token@);
                let star = token_sigs(ps, wildcard_key(token@));
                if j < exact.len() {
                    assert(sv[j as int] == exact[j as int]);
                } else {
                    assert(sv[j as int] == star[j - exact.len()]);
                }
                let w = choose|i: int|
                    0 <= i < ps.len() && ps[i].signature == sv[j as int];
                assert(perm_pred(sv[j as int])(ps[w]));
                lemma_first_where(ps, perm_pred(sv[j as int]));
                assert(sigs[j as int]@ == sv[j as int]);
            }
            let pi = match self.find_permission_idx(&sigs[j]) {
                Some(i) => i,
                None => unreached(),
            };
            let ghost prev = out.deep_view();
            out.push(self.permissions[pi].clone());
            proof {
                assert(out.deep_view() =~= prev.push(self.permissions[pi as int]@));
                assert(perm_at(ps, sv[j as int]) == ps[pi as int]);
            }
            j = j + 1;
        }
        proof {
            assert(out.deep_view() =~= permissions_page(self@, token@, from_index, limit));
        }
        Ok(out)
    }

    /// How many permissions cover `token`, counting its exact index entry
    /// and its contract's wildcard entry together, without pagination.
    pub fn sbt_permissions_count(&self, token: &SBTTokenLocator) -> (r: u64)
        ensures
            r as int == sbt_permission_sigs(self@, token@).len(),
    {
        let sigs = self.collect_token_sigs(token);
        sigs.len() as u64
    }
}

} // verus!
