//! The proposers' last nonces, kept in a map of the host environment.
use vstd::prelude::*;

verus! {

/// A map of the host environment.
#[verifier::external_type_specification]
#[verifier::external_body]
#[verifier::reject_recursive_types(K)]
#[verifier::reject_recursive_types(V)]
pub struct ExHostMap<K, V>(soroban_sdk::Map<K, V>);

/// A host map from proposers to their last nonces.
pub type NonceMap = soroban_sdk::Map<u64, u64>;

/// What a host map from proposers to nonces holds.
pub uninterp spec fn nonce_entries(m: NonceMap) -> Map<u64, u64>;

/// No proposer has used a nonce.
pub open spec fn no_nonces() -> Map<u64, u64> {
    Map::empty()
}

/// Calls `soroban_sdk::Map::new`, which asks the host for a new map object: the map
/// holds nothing.
#[verifier::external_body]
pub(crate) fn nonce_map_new(env: &soroban_sdk::Env) -> (r: NonceMap)
    ensures
        nonce_entries(r) == no_nonces(),
{
    soroban_sdk::Map::new(env)
}

/// Calls `soroban_sdk::Map::get`: the value stored under the key, if the key is
/// present (`try_get` tests `map_has`, then reads with `map_get`; a stored `u64` always
/// converts back).
#[verifier::external_body]
pub(crate) fn nonce_map_get(m: &NonceMap, k: u64) -> (r: Option<u64>)
    ensures
        r == (if nonce_entries(*m).dom().contains(k) {
            Some(nonce_entries(*m)[k])
        } else {
            None
        }),
{
    m.get(k)
}

/// Calls `soroban_sdk::Map::set`, which replaces the map object by the host's
/// `map_put` of the pair: the key now holds the value, every other key is unchanged.
#[verifier::external_body]
pub(crate) fn nonce_map_set(m: &mut NonceMap, k: u64, v: u64)
    ensures
        nonce_entries(*final(m)) == nonce_entries(*old(m)).insert(k, v),
{
    m.set(k, v)
}

/// Calls `soroban_sdk::Map::env`: the environment that the map belongs to. Nothing is
/// stated of it.
#[verifier::external_body]
pub(crate) fn nonce_map_env(m: &NonceMap) -> &soroban_sdk::Env {
    m.env()
}

} // verus!
