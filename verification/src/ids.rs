//! Deterministic listing identity.
//!
//! A listing's id is a 64-bit digest of its ordered token locators and its
//! owner, computed with an FNV-style mixing function over the characters of
//! every field, with tag values (above the largest code point) separating
//! fields, locators and the owner. The derivation is order-sensitive:
//! reordering the tokens changes the encoding, and in practice the id.
//! The same (tokens, owner) pair always derives the same id, so an owner
//! cannot list the exact same ordered token set twice.

use vstd::prelude::*;
use crate::types::{ListingId, SBTTokenLocator, TokenLocatorV};

verus! {

/// The FNV-1a 64-bit offset basis.
pub const HASH_SEED: u64 = 0xcbf29ce484222325;

/// The FNV-1a 64-bit prime.
pub const HASH_PRIME: u64 = 0x100000001b3;

/// Tag mixed in after every locator field; no character can produce it.
pub const FIELD_TAG: u64 = 0xffff_ffff;

/// Tag mixed in between the token list and the owner.
pub const OWNER_TAG: u64 = 0xffff_fffe;

/// One FNV-1a style mixing step, on the full 64-bit state.
pub open spec fn mix(h: u64, v: u64) -> u64 {
    (((h ^ v) * HASH_PRIME) % 0x1_0000_0000_0000_0000) as u64
}

/// Digest of a character sequence, folded left over [`mix`].
pub open spec fn hash_chars(h: u64, s: Seq<char>) -> u64
    decreases s.len(),
{
    if s.len() == 0 {
        h
    } else {
        mix(hash_chars(h, s.drop_last()), s.last() as u64)
    }
}

/// Digest of one locator: its three fields in order, each closed by a tag.
pub open spec fn hash_locator(h: u64, t: TokenLocatorV) -> u64 {
    mix(hash_chars(mix(hash_chars(mix(hash_chars(h, t.chain_id), FIELD_TAG), t.sbt_contract_id), FIELD_TAG), t.token_id), FIELD_TAG)
}

/// Digest of an ordered locator list, folded left over [`hash_locator`].
pub open spec fn hash_locators(h: u64, ts: Seq<TokenLocatorV>) -> u64
    decreases ts.len(),
{
    if ts.len() == 0 {
        h
    } else {
        hash_locator(hash_locators(h, ts.drop_last()), ts.last())
    }
}

/// The listing id derived from an ordered token set and its owner.
pub open spec fn listing_id_of(tokens: Seq<TokenLocatorV>, owner: Seq<char>) -> ListingId {
    hash_chars(mix(hash_locators(HASH_SEED, tokens), OWNER_TAG), owner)
}

/// One executable mixing step.
fn mix_step(h: u64, v: u64) -> (r: u64)
    ensures
        r == mix(h, v),
{
    let x: u128 = (h ^ v) as u128;
    let m: u128 = (x * (HASH_PRIME as u128)) % 0x1_0000_0000_0000_0000u128;
    assert(m < 0x1_0000_0000_0000_0000u128);
    m as u64
}

/// Digest of a string's characters.
fn hash_string(h: u64, s: &String) -> (r: u64)
    ensures
        r == hash_chars(h, s@),
{
    let n = s.unicode_len();
    let mut acc = h;
    let mut i: usize = 0;
    while i < n
        invariant
            n == s@.len(),
            i <= n,
            acc == hash_chars(h, s@.take(i as int)),
        decreases n - i,
    {
        let c = s.as_str().get_char(i);
        acc = mix_step(acc, c as u64);
        proof {
            let t = s@.take(i + 1);
            assert(t.drop_last() =~= s@.take(i as int));
            assert(t.last() == s@[i as int]);
        }
        i = i + 1;
    }
    proof {
        assert(s@.take(n as int) =~= s@);
    }
    acc
}

/// Digest of one locator's fields.
fn hash_locator_step(h: u64, t: &SBTTokenLocator) -> (r: u64)
    ensures
        r == hash_locator(h, t@),
{
    let a = mix_step(hash_string(h, &t.chain_id), FIELD_TAG);
    let b = mix_step(hash_string(a, &t.sbt_contract_id), FIELD_TAG);
    mix_step(hash_string(b, &t.token_id), FIELD_TAG)
}

/// Derives the id under which a listing by `account` over `tokens` is stored.
pub fn get_listing_id(tokens: &Vec<SBTTokenLocator>, account: &String) -> (r: ListingId)
    ensures
        r == listing_id_of(tokens.deep_view(), account@),
{
    let mut acc = HASH_SEED;
    let mut i: usize = 0;
    while i < tokens.len()
        invariant
            i <= tokens.len(),
            acc == hash_locators(HASH_SEED, tokens.deep_view().take(i as int)),
        decreases tokens.len() - i,
    {
        acc = hash_locator_step(acc, &tokens[i]);
        proof {
            let t = tokens.deep_view().take(i + 1);
            assert(t.drop_last() =~= tokens.deep_view().take(i as int));
            assert(t.last() == tokens.deep_view()[i as int]);
        }
        i = i + 1;
    }
    proof {
        assert(tokens.deep_view().take(tokens.deep_view().len() as int) =~= tokens.deep_view());
    }
    hash_string(mix_step(acc, OWNER_TAG), account)
}

} // verus!
