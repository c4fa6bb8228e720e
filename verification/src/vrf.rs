//! Verifiable randomness for fair ticket allocation: turning random values into
//! lottery picks, and the ledger-window rules around finalization.
use vstd::prelude::*;
use crate::crypto::{sha256, sha256_digest, le_bytes, push_le};
use crate::bytes::{copy_bytes, append_bytes, ids_view, zero32};
use crate::access::bytes_eq;

verus! {


/// Randomness configuration.
pub struct VRFConfig {
    pub randomness_finalization_ledger: u32,
    pub batch_nonce: u32,
    pub randomness_generated: bool,
    pub randomness_hash: Vec<u8>,
}

impl Default for VRFConfig {
    /// Nothing generated yet: finalization at ledger 0, nonce 0, no hash.
    fn default() -> (r: Self)
        ensures
            r.randomness_finalization_ledger == 0,
            r.batch_nonce == 0,
            !r.randomness_generated,
            r.randomness_hash@.len() == 0,
    {
        VRFConfig {
            randomness_finalization_ledger: 0,
            batch_nonce: 0,
            randomness_generated: false,
            randomness_hash: Vec::new(),
        }
    }
}

/// Evidence that a random output was derived as claimed.
pub struct VRFProof {
    pub output: Vec<u8>,
    pub proof: Vec<u8>,
    pub ledger_sequence: u32,
    pub input_hash: Vec<u8>,
}

/// A random value, its evidence, and its index in a batch.
pub struct RandomnessOutput {
    pub value: u128,
    pub proof: VRFProof,
    pub batch_index: u32,
}

/// A 32-byte value, as the host reads one from a byte string: the string itself when
/// it has 32 bytes, 32 zero bytes otherwise.
pub open spec fn first32(b: Seq<u8>) -> Seq<u8> {
    if b.len() == 32 {
        b
    } else {
        zero32()
    }
}

/// Reads a 32-byte value from a byte string (see `first32`).
fn read32(b: &Vec<u8>) -> (r: Vec<u8>)
    ensures
        r@ == first32(b@),
{
    if b.len() == 32 {
        copy_bytes(b)
    } else {
        let mut z: Vec<u8> = Vec::new();
        let mut i: usize = 0;
        while i < 32
            invariant
                i <= 32,
                z@ == Seq::new(i as nat, |_j: int| 0u8),
            decreases 32 - i,
        {
            z.push(0);
            i = i + 1;
            assert(z@ =~= Seq::new(i as nat, |_j: int| 0u8));
        }
        assert(z@ =~= zero32());
        z
    }
}

/// The bytes hashed into a random output: the input, the ledger hash (each read as a
/// 32-byte value) and the 4-byte nonce.
pub open spec fn vrf_message(input: Seq<u8>, ledger_hash: Seq<u8>, nonce: u32) -> Seq<u8> {
    first32(input) + first32(ledger_hash) + le_bytes(nonce as nat, 4)
}

/// The bytes hashed into a proof: the input read as a 32-byte value, the 4-byte
/// ledger sequence and the 4-byte nonce.
pub open spec fn proof_message(input: Seq<u8>, ledger_sequence: u32, nonce: u32) -> Seq<u8> {
    first32(input) + le_bytes(ledger_sequence as nat, 4) + le_bytes(nonce as nat, 4)
}

/// The value of a proof: output, proof bytes, ledger sequence and input hash.
pub open spec fn proof_view(p: VRFProof) -> (Seq<u8>, Seq<u8>, u32, Seq<u8>) {
    (p.output@, p.proof@, p.ledger_sequence, p.input_hash@)
}

/// The little-endian value of a byte string.
pub open spec fn le_value(b: Seq<u8>) -> nat
    decreases b.len(),
{
    if b.len() == 0 {
        0
    } else {
        (b[0] + 256 * le_value(b.drop_first())) as nat
    }
}

/// `256^n`.
pub open spec fn pow256(n: nat) -> nat
    decreases n,
{
    if n == 0 {
        1
    } else {
        256 * pow256((n - 1) as nat)
    }
}

proof fn lemma_le_value_bound(b: Seq<u8>)
    ensures
        le_value(b) < pow256(b.len()),
    decreases b.len(),
{
    if b.len() > 0 {
        lemma_le_value_bound(b.drop_first());
        let r = le_value(b.drop_first());
        let p = pow256(b.drop_first().len());
        assert(b[0] + 256 * r < 256 * p) by (nonlinear_arith)
            requires
                r < p,
                b[0] < 256,
        ;
    }
}

proof fn lemma_pow256_16()
    ensures
        pow256(16) == 0x1_0000_0000_0000_0000_0000_0000_0000_0000,
{
    reveal_with_fuel(pow256, 17);
}

/// The number of one bits of `x`.
pub open spec fn popcount(x: nat) -> nat
    decreases x,
{
    if x == 0 {
        0
    } else {
        (x % 2 + popcount(x / 2)) as nat
    }
}

/// The number of one bits of a value.
pub fn count_ones(x: u128) -> (r: u32)
    ensures
        r == popcount(x as nat),
        r <= 128,
{
    let mut v = x;
    let mut n: u32 = 0;
    let mut i: u32 = 0;
    assert(x >> 0u128 == x) by (bit_vector);
    while i < 128
        invariant
            i <= 128,
            n <= i,
            v == x >> (i as u128),
            popcount(x as nat) == n + popcount(v as nat),
        decreases 128 - i,
    {
        let ghost ii = i as u128;
        assert((x >> ii) / 2 == x >> (ii + 1)) by (bit_vector)
            requires
                ii < 128,
        ;
        if v > 0 {
            assert(popcount(v as nat) == v as nat % 2 + popcount(v as nat / 2));
        }
        n = n + (v % 2) as u32;
        v = v / 2;
        i = i + 1;
    }
    assert(x >> 128u128 == 0) by (bit_vector);
    n
}

/// The total number of one bits of the values.
pub open spec fn total_bits(v: Seq<RandomnessOutput>) -> nat
    decreases v.len(),
{
    if v.len() == 0 {
        0
    } else {
        total_bits(v.drop_last()) + popcount(v.last().value as nat)
    }
}

/// Two equal values among the first 50.
pub open spec fn early_duplicate(v: Seq<RandomnessOutput>) -> bool {
    exists|i: int, j: int| 0 <= i < j < v.len() && j < 50 && #[trigger] v[i].value == #[trigger] v[j].value
}

/// Randomness is of acceptable quality when there is some, no two of the first 50
/// values are equal, some value is not zero, and the values carry on average at least
/// 6 one bits.
pub open spec fn quality_ok(v: Seq<RandomnessOutput>) -> bool {
    &&& v.len() > 0
    &&& !early_duplicate(v)
    &&& exists|i: int| 0 <= i < v.len() && #[trigger] v[i].value != 0
    &&& total_bits(v) >= v.len() * 6
}

/// The randomness engine.
pub struct VRFEngine;

impl VRFEngine {
    /// The lottery pick of a random value among `pool_size` entries: its remainder
    /// modulo the pool size, or 0 for an empty pool.
    pub fn compute_selection_index(randomness_value: u128, pool_size: u32) -> (r: u32)
        ensures
            pool_size == 0 ==> r == 0,
            pool_size > 0 ==> r as int == randomness_value as int % pool_size as int,
            pool_size > 0 ==> r < pool_size,
    {
        if pool_size == 0 {
            return 0;
        }
        (randomness_value % (pool_size as u128)) as u32
    }

    /// A fresh configuration finalizing at the given ledger.
    pub fn initialize_vrf(finalization_ledger: u32) -> (r: VRFConfig)
        ensures
            r.randomness_finalization_ledger == finalization_ledger,
            r.batch_nonce == 0,
            !r.randomness_generated,
            r.randomness_hash@.len() == 0,
    {
        VRFConfig {
            randomness_finalization_ledger: finalization_ledger,
            batch_nonce: 0,
            randomness_generated: false,
            randomness_hash: Vec::new(),
        }
    }

    /// The proof bytes: the digest of `proof_message`.
    fn generate_proof_bytes(env: &soroban_sdk::Env, input: &Vec<u8>, ledger_sequence: u32, nonce: u32)
        -> (r: Vec<u8>)
        ensures
            r@ == sha256_digest(proof_message(input@, ledger_sequence, nonce)),
    {
        let mut data = read32(input);
        push_le(&mut data, ledger_sequence as u128, 4);
        push_le(&mut data, nonce as u128, 4);
        sha256(env, &data)
    }

    /// Derives a random output from an input, the ledger's hash and a nonce: the
    /// digest of `vrf_message`, with its proof (the digest of `proof_message`), the
    /// ledger sequence and the input's digest.
    pub fn generate_vrf_randomness(
        env: &soroban_sdk::Env,
        input: &Vec<u8>,
        nonce: u32,
        ledger_sequence: u32,
        ledger_hash: &Vec<u8>,
    ) -> (r: (Vec<u8>, VRFProof))
        ensures
            r.0@ == sha256_digest(vrf_message(input@, ledger_hash@, nonce)),
            r.0@.len() == 32,
            proof_view(r.1) == (
                r.0@,
                sha256_digest(proof_message(input@, ledger_sequence, nonce)),
                ledger_sequence,
                sha256_digest(input@),
            ),
    {
        let mut combined = read32(input);
        let h = read32(ledger_hash);
        append_bytes(&mut combined, &h);
        push_le(&mut combined, nonce as u128, 4);
        let output = sha256(env, &combined);
        let input_hash = sha256(env, input);
        let proof = VRFProof {
            output: copy_bytes(&output),
            proof: Self::generate_proof_bytes(env, input, ledger_sequence, nonce),
            ledger_sequence,
            input_hash,
        };
        (output, proof)
    }

    /// The little-endian value of the first 16 bytes.
    fn le_u128(b: &Vec<u8>) -> (r: u128)
        requires
            b@.len() >= 16,
        ensures
            r == le_value(b@.take(16)),
    {
        let mut v: u128 = 0;
        let mut k: usize = 16;
        proof {
            assert(b@.subrange(16, 16) =~= Seq::<u8>::empty());
        }
        while k > 0
            invariant
                k <= 16,
                b@.len() >= 16,
                v == le_value(b@.subrange(k as int, 16)),
            decreases k,
        {
            let ghost s = b@.subrange(k - 1, 16);
            assert(s.drop_first() =~= b@.subrange(k as int, 16));
            proof {
                lemma_le_value_bound(s);
                lemma_pow256_16();
                assert(pow256(s.len()) <= pow256(16)) by {
                    lemma_pow256_mono(s.len(), 16);
                }
            }
            v = b[k - 1] as u128 + 256 * v;
            k = k - 1;
        }
        assert(b@.subrange(0, 16) =~= b@.take(16));
        v
    }

    /// The random outputs for nonces 0 to `batch_size - 1` from one seed, each valued
    /// by the little-endian reading of its first 16 bytes.
    pub fn generate_batch_randomness(
        env: &soroban_sdk::Env,
        batch_size: u32,
        seed: &Vec<u8>,
        ledger_sequence: u32,
        ledger_hash: &Vec<u8>,
    ) -> (r: Vec<RandomnessOutput>)
        ensures
            r@.len() == batch_size,
            forall|i: int|
                0 <= i < batch_size ==> {
                    let out = sha256_digest(vrf_message(seed@, ledger_hash@, i as u32));
                    &&& #[trigger] r@[i].batch_index == i
                    &&& r@[i].value == le_value(out.take(16))
                    &&& proof_view(r@[i].proof) == (
                        out,
                        sha256_digest(proof_message(seed@, ledger_sequence, i as u32)),
                        ledger_sequence,
                        sha256_digest(seed@),
                    )
                },
    {
        let mut results: Vec<RandomnessOutput> = Vec::new();
        let mut i: u32 = 0;
        while i < batch_size
            invariant
                i <= batch_size,
                results@.len() == i,
                forall|j: int|
                    0 <= j < i ==> {
                        let out = sha256_digest(vrf_message(seed@, ledger_hash@, j as u32));
                        &&& #[trigger] results@[j].batch_index == j
                        &&& results@[j].value == le_value(out.take(16))
                        &&& proof_view(results@[j].proof) == (
                            out,
                            sha256_digest(proof_message(seed@, ledger_sequence, j as u32)),
                            ledger_sequence,
                            sha256_digest(seed@),
                        )
                    },
            decreases batch_size - i,
        {
            let (output, proof) = Self::generate_vrf_randomness(env, seed, i, ledger_sequence, ledger_hash);
            let arr = read32(&output);
            assert(arr@ == output@);
            let value = Self::le_u128(&arr);
            results.push(RandomnessOutput { value, proof, batch_index: i });
            i = i + 1;
        }
        results
    }

    /// Checks a proof against the input it claims: the ledger sequence must match,
    /// the input's digest must match, the proof bytes must not be empty and the output
    /// must have 32 bytes.
    pub fn verify_vrf_proof(
        env: &soroban_sdk::Env,
        proof: &VRFProof,
        original_input: &Vec<u8>,
        expected_ledger: u32,
    ) -> (r: bool)
        ensures
            r == (proof.ledger_sequence == expected_ledger && sha256_digest(original_input@)
                == proof.input_hash@ && proof.proof@.len() > 0 && proof.output@.len() == 32),
    {
        if proof.ledger_sequence != expected_ledger {
            return false;
        }
        let computed = sha256(env, original_input);
        if !bytes_eq(&computed, &proof.input_hash) {
            return false;
        }
        proof.proof.len() > 0 && proof.output.len() == 32
    }

    /// The digest of the outputs of a batch, each read as a 32-byte value.
    pub fn hash_randomness_batch(env: &soroban_sdk::Env, values: &Vec<RandomnessOutput>) -> (r: Vec<
        u8,
    >)
        ensures
            r@ == sha256_digest(outputs_message(values@)),
    {
        let mut combined: Vec<u8> = Vec::new();
        let mut i: usize = 0;
        assert(values@.take(0) =~= Seq::<RandomnessOutput>::empty());
        while i < values.len()
            invariant
                i <= values@.len(),
                combined@ == outputs_message(values@.take(i as int)),
            decreases values@.len() - i,
        {
            let o = read32(&values[i].proof.output);
            append_bytes(&mut combined, &o);
            assert(values@.take(i + 1).drop_last() =~= values@.take(i as int));
            i = i + 1;
        }
        assert(values@.take(i as int) =~= values@);
        sha256(env, &combined)
    }

    /// Mixes entropy from several providers: the digest of the ledger's hash (read as a
    /// 32-byte value) followed by each source's digest.
    pub fn mix_entropy_sources(env: &soroban_sdk::Env, sources: &Vec<Vec<u8>>, ledger_hash: &Vec<u8>)
        -> (r: Vec<u8>)
        ensures
            r@ == sha256_digest(first32(ledger_hash@) + source_digests(ids_view(sources@))),
    {
        let mut combined = read32(ledger_hash);
        let ghost head = combined@;
        let ghost ids = ids_view(sources@);
        let mut i: usize = 0;
        assert(ids.take(0) =~= Seq::<Seq<u8>>::empty());
        while i < sources.len()
            invariant
                i <= sources@.len(),
                ids == ids_view(sources@),
                combined@ == head + source_digests(ids.take(i as int)),
            decreases sources@.len() - i,
        {
            let h = sha256(env, &sources[i]);
            let h32 = read32(&h);
            append_bytes(&mut combined, &h32);
            assert(ids.take(i + 1).drop_last() =~= ids.take(i as int));
            assert(ids.take(i + 1).last() == sources@[i as int]@);
            i = i + 1;
            assert(combined@ =~= head + source_digests(ids.take(i as int)));
        }
        assert(ids.take(i as int) =~= ids);
        sha256(env, &combined)
    }

    /// Checks the quality of a batch of random values (see `quality_ok`).
    #[verifier::loop_isolation(false)]
    pub fn validate_randomness_quality(values: &Vec<RandomnessOutput>) -> (r: bool)
        requires
            total_bits(values@) <= u32::MAX,
            values@.len() * 6 <= u32::MAX,
        ensures
            r == quality_ok(values@),
    {
        if values.len() == 0 {
            return false;
        }
        let mut all_zeros = true;
        let mut total_set_bits: u32 = 0;
        let mut seen: Vec<u128> = Vec::new();
        let mut i: usize = 0;
        assert(values@.take(0) =~= Seq::<RandomnessOutput>::empty());
        while i < values.len()
            invariant
                i <= values@.len(),
                total_bits(values@) <= u32::MAX,
                total_set_bits == total_bits(values@.take(i as int)),
                all_zeros == forall|j: int| 0 <= j < i ==> #[trigger] values@[j].value == 0,
                seen@.len() == if i < 50 { i as nat } else { 50 },
                forall|j: int| 0 <= j < seen@.len() ==> #[trigger] seen@[j] == values@[j].value,
                !(exists|a: int, b: int| 0 <= a < b < i && b < 50 && #[trigger] values@[a].value == #[trigger] values@[b].value),
            decreases values@.len() - i,
        {
            let v = values[i].value;
            if v != 0 {
                all_zeros = false;
            }
            assert(values@.take(i + 1).drop_last() =~= values@.take(i as int));
            proof {
                lemma_total_bits_prefix(values@, i + 1);
            }
            let c = count_ones(v);
            total_set_bits = total_set_bits + c;
            if seen.len() < 50 {
                let mut k: usize = 0;
                while k < seen.len()
                    invariant
                        k <= seen@.len(),
                        forall|q: int| 0 <= q < k ==> seen@[q] != v,
                    decreases seen@.len() - k,
                {
                    if seen[k] == v {
                        proof {
                            assert(values@[k as int].value == values@[i as int].value);
                        }
                        return false;
                    }
                    k = k + 1;
                }
                assert forall|q: int| 0 <= q < i implies #[trigger] values@[q].value != v by {
                    assert(seen@[q] == values@[q].value);
                    assert(seen@[q] != v);
                }
                seen.push(v);
            }
            assert forall|a: int, b: int|
                0 <= a < b < i + 1 && b < 50 implies #[trigger] values@[a].value
                != #[trigger] values@[b].value by {
                if b == i {
                    assert(values@[a].value != v);
                }
            }
            i = i + 1;
        }
        assert(values@.take(i as int) =~= values@);
        let min_set_bits = (values.len() as u32) * 6;
        !all_zeros && total_set_bits >= min_set_bits
    }

    /// Whether a ledger falls within the anti-sniping window: at or after the
    /// finalization ledger and before it plus the window.
    pub fn is_in_anti_sniping_window(current_ledger: u32, finalization_ledger: u32, window_size: u32)
        -> (r: bool)
        requires
            finalization_ledger + window_size <= u32::MAX,
        ensures
            r == (finalization_ledger <= current_ledger < finalization_ledger + window_size),
    {
        current_ledger >= finalization_ledger && current_ledger < finalization_ledger + window_size
    }

    /// Whether randomness may be finalized: the lock period has passed since the
    /// finalization ledger.
    pub fn can_finalize_randomness(current_ledger: u32, finalization_ledger: u32, lock_period: u32)
        -> (r: bool)
        requires
            finalization_ledger + lock_period <= u32::MAX,
        ensures
            r == (current_ledger >= finalization_ledger + lock_period),
    {
        current_ledger >= finalization_ledger + lock_period
    }
}


proof fn lemma_pow256_mono(a: nat, b: nat)
    requires
        a <= b,
    ensures
        pow256(a) <= pow256(b),
    decreases b,
{
    if a < b {
        lemma_pow256_mono(a, (b - 1) as nat);
    }
}

proof fn lemma_total_bits_prefix(v: Seq<RandomnessOutput>, k: int)
    requires
        0 <= k <= v.len(),
    ensures
        total_bits(v.take(k)) <= total_bits(v),
    decreases v.len(),
{
    if k < v.len() {
        assert(v.drop_last().take(k) =~= v.take(k));
        lemma_total_bits_prefix(v.drop_last(), k);
    } else {
        assert(v.take(k) =~= v);
    }
}

/// The outputs of a batch, each read as a 32-byte value, concatenated.
pub open spec fn outputs_message(v: Seq<RandomnessOutput>) -> Seq<u8>
    decreases v.len(),
{
    if v.len() == 0 {
        Seq::empty()
    } else {
        outputs_message(v.drop_last()) + first32(v.last().proof.output@)
    }
}

/// The digests of the sources, each read as a 32-byte value, concatenated.
pub open spec fn source_digests(s: Seq<Seq<u8>>) -> Seq<u8>
    decreases s.len(),
{
    if s.len() == 0 {
        Seq::empty()
    } else {
        source_digests(s.drop_last()) + first32(sha256_digest(s.last()))
    }
}

} // verus!
