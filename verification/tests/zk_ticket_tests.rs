use gathera::zk_contract::ZKTicketContract;
use gathera::zk_ticket::{AttributeType, BatchStatus, CircuitParameters, ZKAttribute, ZKTicketError};
use soroban_sdk::Env;

const ADMIN: u64 = 1;
const EVENT: u64 = 50;
const OWNER: u64 = 60;

fn circuit_params() -> CircuitParameters {
    CircuitParameters {
        circuit_hash: vec![1; 32],
        proving_key_hash: vec![2; 32],
        verification_key_hash: vec![3; 32],
        attribute_count: 5,
        public_inputs: 2,
        private_inputs: 3,
    }
}

fn attr(kind: AttributeType, value: Vec<u8>, commitment: u8) -> ZKAttribute {
    ZKAttribute { attribute_type: kind, value, revealed: false, commitment: vec![commitment; 32] }
}

fn two_attributes() -> Vec<ZKAttribute> {
    vec![
        attr(AttributeType::TicketId, vec![1, 2, 3, 4], 3),
        attr(AttributeType::EventId, vec![5, 6, 7, 8], 4),
    ]
}

fn initialized() -> ZKTicketContract {
    let mut z = ZKTicketContract::new();
    z.initialize(ADMIN, circuit_params(), 0).unwrap();
    z
}

#[test]
fn test_test_initialize() {
    let z = initialized();
    let stored = z.get_circuit_params().unwrap();
    assert_eq!(stored.circuit_hash, vec![1u8; 32]);
    assert_eq!(stored.attribute_count, 5);
}

#[test]
fn test_create_ticket_commitment() {
    let env = Env::default();
    let mut z = initialized();
    let commitment = z
        .create_ticket_commitment(&env, EVENT, vec![1; 32], &two_attributes(), vec![2; 32], 0)
        .unwrap();
    let stored = z.get_commitment(&commitment).unwrap();
    assert_eq!(stored.event_id, EVENT);
    assert_eq!(stored.ticket_hash, vec![1u8; 32]);
    assert_eq!(stored.nullifier, vec![2u8; 32]);
    assert!(stored.active);
    assert_eq!(commitment.len(), 32);
}

#[test]
fn test_submit_proof() {
    let env = Env::default();
    let mut z = initialized();
    let attributes = two_attributes();
    let nullifier = vec![2u8; 32];
    let proof_id = vec![5u8; 32];
    let commitment = z
        .create_ticket_commitment(&env, EVENT, vec![1; 32], &attributes, nullifier.clone(), 0)
        .unwrap();
    let result = z
        .submit_proof(
            &env,
            proof_id.clone(),
            commitment.clone(),
            nullifier.clone(),
            EVENT,
            OWNER,
            &attributes,
            vec![1; 200],
            86400,
            0,
        )
        .unwrap();
    assert!(result);
    let proof = z.get_proof(&proof_id).unwrap();
    assert_eq!(proof.proof_id, proof_id);
    assert_eq!(proof.ticket_commitment, commitment);
    assert_eq!(proof.nullifier, nullifier);
    assert_eq!(proof.event_id, EVENT);
    assert_eq!(proof.owner, OWNER);
    assert!(proof.verified_at.is_some());
    let info = z.get_nullifier_info(&nullifier).unwrap();
    assert!(info.used);
    assert_eq!(info.proof_id, Some(proof_id));
}

#[test]
fn test_batch_verification() {
    let env = Env::default();
    let mut z = initialized();
    let attributes = two_attributes();
    let (n1, n2) = (vec![2u8; 32], vec![3u8; 32]);
    let (p1, p2) = (vec![5u8; 32], vec![6u8; 32]);
    let c1 = z.create_ticket_commitment(&env, EVENT, vec![1; 32], &attributes, n1.clone(), 0).unwrap();
    let c2 = z.create_ticket_commitment(&env, EVENT, vec![1; 32], &attributes, n2.clone(), 0).unwrap();
    z.submit_proof(&env, p1.clone(), c1, n1, EVENT, OWNER, &attributes, vec![1; 200], 86400, 0).unwrap();
    z.submit_proof(&env, p2.clone(), c2, n2, EVENT, OWNER, &attributes, vec![1; 200], 86400, 0).unwrap();
    let proof_ids = vec![p1, p2];
    let batch_id = z.batch_verify(&env, proof_ids.clone(), 0).unwrap();
    let batch = z.get_batch_verification(&batch_id).unwrap();
    assert_eq!(batch.proofs, proof_ids);
    assert_eq!(batch.status, BatchStatus::Completed);
    assert_eq!(batch.results.len(), 2);
    assert!(batch.results[0]);
    assert!(batch.results[1]);
}

#[test]
fn test_mobile_proof_verification() {
    let env = Env::default();
    let mut z = initialized();
    let result = z.verify_mobile_proof(&env, vec![7; 32], vec![1; 100], &vec![1; 150], 86400, 0).unwrap();
    assert!(result);
}

#[test]
fn test_selective_disclosure() {
    let env = Env::default();
    let mut z = initialized();
    let attributes = vec![
        attr(AttributeType::TicketId, vec![1, 2, 3, 4], 3),
        attr(AttributeType::EventId, vec![5, 6, 7, 8], 4),
        attr(AttributeType::SeatNumber, vec![9, 10, 11, 12], 5),
    ];
    let nullifier = vec![2u8; 32];
    let proof_id = vec![5u8; 32];
    let commitment = z
        .create_ticket_commitment(&env, EVENT, vec![1; 32], &attributes, nullifier.clone(), 0)
        .unwrap();
    z.submit_proof(&env, proof_id.clone(), commitment, nullifier, EVENT, OWNER, &attributes, vec![1; 200], 86400, 0)
        .unwrap();
    let types = vec![AttributeType::TicketId, AttributeType::SeatNumber];
    let reveal_data = vec![vec![1, 2, 3, 4], vec![9, 10, 11, 12]];
    let result = z.reveal_attributes(&proof_id, &types, &reveal_data, 0).unwrap();
    assert!(result);
    let proof = z.get_proof(&proof_id).unwrap();
    let find = |k: AttributeType| proof.attributes.iter().find(|a| a.attribute_type.same(&k)).unwrap();
    assert!(find(AttributeType::TicketId).revealed);
    assert!(find(AttributeType::SeatNumber).revealed);
    assert!(!find(AttributeType::EventId).revealed);
}

#[test]
fn test_ticket_revocation() {
    let env = Env::default();
    let mut z = initialized();
    let commitment = z
        .create_ticket_commitment(&env, EVENT, vec![1; 32], &two_attributes(), vec![2; 32], 0)
        .unwrap();
    z.revoke_ticket(&commitment, 0).unwrap();
    let stored = z.get_commitment(&commitment).unwrap();
    assert!(!stored.active);
    let list = z.get_revocation_list().unwrap();
    assert!(list.revoked_commitments.contains(&commitment));
}

#[test]
fn test_nullifier_reuse_prevention() {
    let env = Env::default();
    let mut z = initialized();
    let attributes = two_attributes();
    let nullifier = vec![2u8; 32];
    let commitment = z
        .create_ticket_commitment(&env, EVENT, vec![1; 32], &attributes, nullifier.clone(), 0)
        .unwrap();
    z.submit_proof(&env, vec![5; 32], commitment.clone(), nullifier.clone(), EVENT, OWNER, &attributes, vec![1; 200], 86400, 0)
        .unwrap();
    let result = z.submit_proof(&env, vec![6; 32], commitment, nullifier, EVENT, OWNER, &attributes, vec![1; 200], 86400, 0);
    assert!(result.is_err());
}

#[test]
fn test_proof_expiration() {
    let env = Env::default();
    let mut z = initialized();
    let attributes = two_attributes();
    let nullifier = vec![2u8; 32];
    let now = 100_000;
    let commitment = z
        .create_ticket_commitment(&env, EVENT, vec![1; 32], &attributes, nullifier.clone(), now)
        .unwrap();
    let result = z.submit_proof(&env, vec![5; 32], commitment, nullifier, EVENT, OWNER, &attributes, vec![1; 200], now - 86400, now);
    assert!(result.is_err());
}

fn make_attrs() -> Vec<ZKAttribute> {
    vec![
        ZKAttribute {
            attribute_type: AttributeType::TicketId,
            value: vec![1u8; 32],
            commitment: vec![1; 32],
            revealed: false,
        },
        ZKAttribute {
            attribute_type: AttributeType::EventId,
            value: vec![2u8; 32],
            commitment: vec![2; 32],
            revealed: false,
        },
    ]
}

#[test]
fn test_validate_attributes_passes_with_required() {
    let attrs = make_attrs();
    assert!(ZKTicketContract::validate_attributes(&attrs).is_ok());
}

#[test]
fn test_validate_attributes_fails_when_empty() {
    let attrs: Vec<ZKAttribute> = Vec::new();
    assert_eq!(ZKTicketContract::validate_attributes(&attrs), Err(ZKTicketError::InsufficientAttributes));
}

#[test]
fn test_validate_attributes_fails_missing_ticket_id() {
    let attrs = vec![ZKAttribute {
        attribute_type: AttributeType::EventId,
        value: vec![2u8; 32],
        commitment: vec![2; 32],
        revealed: false,
    }];
    assert_eq!(ZKTicketContract::validate_attributes(&attrs), Err(ZKTicketError::InsufficientAttributes));
}

#[test]
fn test_validate_attributes_fails_missing_event_id() {
    let attrs = vec![ZKAttribute {
        attribute_type: AttributeType::TicketId,
        value: vec![1u8; 32],
        commitment: vec![1; 32],
        revealed: false,
    }];
    assert_eq!(ZKTicketContract::validate_attributes(&attrs), Err(ZKTicketError::InsufficientAttributes));
}

#[test]
fn zk_revoked_ticket_refuses_proofs() {
    let env = Env::default();
    let mut z = initialized();
    let attributes = two_attributes();
    let nullifier = vec![2u8; 32];
    let commitment = z
        .create_ticket_commitment(&env, EVENT, vec![1; 32], &attributes, nullifier.clone(), 0)
        .unwrap();
    z.revoke_ticket(&commitment, 0).unwrap();
    let result = z.submit_proof(&env, vec![5; 32], commitment, nullifier, EVENT, OWNER, &attributes, vec![1; 200], 86400, 0);
    assert!(result.is_err());
}

#[test]
fn zk_short_proof_refused() {
    let env = Env::default();
    let mut z = initialized();
    let attributes = two_attributes();
    let nullifier = vec![2u8; 32];
    let commitment = z
        .create_ticket_commitment(&env, EVENT, vec![1; 32], &attributes, nullifier.clone(), 0)
        .unwrap();
    let result = z.submit_proof(&env, vec![5; 32], commitment, nullifier, EVENT, OWNER, &attributes, vec![1; 99], 86400, 0);
    assert!(result.is_err());
    assert!(z.verify_mobile_proof(&env, vec![7; 32], vec![1; 100], &vec![1; 49], 86400, 0).is_err());
}

#[test]
fn zk_commitment_depends_on_nullifier() {
    let env = Env::default();
    let mut z = initialized();
    let attributes = two_attributes();
    let c1 = z.create_ticket_commitment(&env, EVENT, vec![1; 32], &attributes, vec![2; 32], 0).unwrap();
    let c2 = z.create_ticket_commitment(&env, EVENT, vec![1; 32], &attributes, vec![3; 32], 0).unwrap();
    assert_ne!(c1, c2);
}
