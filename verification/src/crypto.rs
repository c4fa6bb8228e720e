//! Hashing through the host environment, and the byte encoding of the values that the
//! contracts hash to derive identifiers.
use vstd::prelude::*;

verus! {

/// The contract host environment, through which hashing is done.
#[verifier::external_type_specification]
#[verifier::external_body]
pub struct ExEnv(soroban_sdk::Env);

/// The SHA-256 digest of a byte string.
pub uninterp spec fn sha256_digest(data: Seq<u8>) -> Seq<u8>;

/// Calls `soroban_sdk::crypto::Crypto::sha256` (via `Env::crypto`) on the bytes. The
/// contract claims that the result is the 32-byte SHA-256 digest of the input, a
/// function of the input alone.
#[verifier::external_body]
pub(crate) fn sha256(env: &soroban_sdk::Env, data: &Vec<u8>) -> (r: Vec<u8>)
    ensures
        r@ == sha256_digest(data@),
        r@.len() == 32,
{
    env.crypto().sha256(&soroban_sdk::Bytes::from_slice(env, data.as_slice())).to_array().to_vec()
}

/// The `n`-byte little-endian encoding of `x` (taken modulo 256^n).
pub open spec fn le_bytes(x: nat, n: nat) -> Seq<u8>
    decreases n,
{
    if n == 0 {
        Seq::empty()
    } else {
        seq![(x % 256) as u8] + le_bytes(x / 256, (n - 1) as nat)
    }
}

/// Appends the `n`-byte little-endian encoding of `x`.
pub fn push_le(out: &mut Vec<u8>, x: u128, n: usize)
    ensures
        final(out)@ == old(out)@ + le_bytes(x as nat, n as nat),
{
    let mut v = x;
    let mut i: usize = 0;
    let ghost start = out@;
    assert(out@ + le_bytes(v as nat, n as nat) == start + le_bytes(x as nat, n as nat));
    while i < n
        invariant
            i <= n,
            out@ + le_bytes(v as nat, (n - i) as nat) == start + le_bytes(x as nat, n as nat),
        decreases n - i,
    {
        let ghost before = out@;
        let ghost rest = le_bytes(v as nat / 256, (n - i - 1) as nat);
        assert(le_bytes(v as nat, (n - i) as nat) == seq![(v as nat % 256) as u8] + rest);
        let b = (v % 256) as u8;
        out.push(b);
        v = v / 256;
        i = i + 1;
        assert(out@ + le_bytes(v as nat, (n - i) as nat) =~= before + (seq![b] + rest));
    }
}

} // verus!
