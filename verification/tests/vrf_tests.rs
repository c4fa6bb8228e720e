use gathera::vrf::{VRFConfig, VRFEngine};

#[test]
fn test_compute_selection_index() {
    // Test that selection index is within bounds
    let index1 = VRFEngine::compute_selection_index(12345, 100);
    assert!(index1 < 100);

    let index2 = VRFEngine::compute_selection_index(999999999, 50);
    assert!(index2 < 50);

    // Test with pool size of 1
    let index3 = VRFEngine::compute_selection_index(12345, 1);
    assert_eq!(index3, 0);
}

use gathera::vrf::{count_ones, RandomnessOutput, VRFProof};
use soroban_sdk::{Bytes, Env};

fn digest(env: &Env, data: &[u8]) -> Vec<u8> {
    env.crypto().sha256(&Bytes::from_slice(env, data)).to_array().to_vec()
}

#[test]
fn vrf_output_is_digest_of_input_hash_and_nonce() {
    let env = Env::default();
    let input = vec![7u8; 32];
    let ledger_hash = vec![9u8; 32];
    let (output, proof) = VRFEngine::generate_vrf_randomness(&env, &input, 5, 42, &ledger_hash);
    let mut msg = input.clone();
    msg.extend_from_slice(&ledger_hash);
    msg.extend_from_slice(&5u32.to_le_bytes());
    assert_eq!(output, digest(&env, &msg));
    assert_eq!(proof.output, output);
    assert_eq!(proof.ledger_sequence, 42);
    assert_eq!(proof.input_hash, digest(&env, &input));
    let mut pmsg = input.clone();
    pmsg.extend_from_slice(&42u32.to_le_bytes());
    pmsg.extend_from_slice(&5u32.to_le_bytes());
    assert_eq!(proof.proof, digest(&env, &pmsg));
    assert!(VRFEngine::verify_vrf_proof(&env, &proof, &input, 42));
    assert!(!VRFEngine::verify_vrf_proof(&env, &proof, &input, 43));
    assert!(!VRFEngine::verify_vrf_proof(&env, &proof, &vec![8u8; 32], 42));
}

#[test]
fn vrf_batch_values_and_quality() {
    let env = Env::default();
    let seed = vec![3u8; 32];
    let batch = VRFEngine::generate_batch_randomness(&env, 4, &seed, 10, &vec![1u8; 32]);
    assert_eq!(batch.len(), 4);
    for (i, out) in batch.iter().enumerate() {
        assert_eq!(out.batch_index as usize, i);
        let mut first = [0u8; 16];
        first.copy_from_slice(&out.proof.output[..16]);
        assert_eq!(out.value, u128::from_le_bytes(first));
    }
    assert!(VRFEngine::validate_randomness_quality(&batch));
    assert!(!VRFEngine::validate_randomness_quality(&Vec::new()));
    let zero = |i: u32| RandomnessOutput {
        value: 0,
        proof: VRFProof { output: vec![0; 32], proof: vec![1], ledger_sequence: 0, input_hash: vec![] },
        batch_index: i,
    };
    assert!(!VRFEngine::validate_randomness_quality(&vec![zero(0)]));
}

#[test]
fn vrf_windows_and_bits() {
    assert!(VRFEngine::is_in_anti_sniping_window(100, 100, 10));
    assert!(VRFEngine::is_in_anti_sniping_window(109, 100, 10));
    assert!(!VRFEngine::is_in_anti_sniping_window(110, 100, 10));
    assert!(!VRFEngine::is_in_anti_sniping_window(99, 100, 10));
    assert!(VRFEngine::can_finalize_randomness(110, 100, 10));
    assert!(!VRFEngine::can_finalize_randomness(109, 100, 10));
    assert_eq!(count_ones(0), 0);
    assert_eq!(count_ones(0b1011), 3);
    assert_eq!(count_ones(u128::MAX), 128);
    assert_eq!(VRFEngine::compute_selection_index(17, 0), 0);
    assert_eq!(VRFEngine::compute_selection_index(17, 5), 2);
    let env = Env::default();
    let sources = vec![vec![1u8, 2], vec![3u8]];
    let hash = vec![4u8; 32];
    let mixed = VRFEngine::mix_entropy_sources(&env, &sources, &hash);
    let mut msg = hash.clone();
    msg.extend_from_slice(&digest(&env, &[1, 2]));
    msg.extend_from_slice(&digest(&env, &[3]));
    assert_eq!(mixed, digest(&env, &msg));
}

#[test]
fn vrf_config_default_and_initialization() {
    let d = VRFConfig::default();
    assert_eq!((d.randomness_finalization_ledger, d.batch_nonce, d.randomness_generated), (0, 0, false));
    assert!(d.randomness_hash.is_empty());
    let c = VRFEngine::initialize_vrf(500);
    assert_eq!((c.randomness_finalization_ledger, c.batch_nonce, c.randomness_generated), (500, 0, false));
}
