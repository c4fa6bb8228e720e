use gathera::identity::{IdentityError, IdentityRegistryContract};
use soroban_sdk::Env;

const ADMIN: u64 = 1;
const USER: u64 = 2;
const DELEGATE: u64 = 3;
const STRANGER: u64 = 4;

fn registry() -> IdentityRegistryContract {
    let mut r = IdentityRegistryContract::new();
    r.initialize(ADMIN).unwrap();
    r
}

fn s(x: &str) -> String {
    x.to_string()
}

#[test]
fn identity_test_initialize() {
    let mut r = IdentityRegistryContract::new();
    r.initialize(ADMIN).unwrap();
    assert!(r.initialize(ADMIN).is_err());
}

#[test]
fn test_create_did() {
    let env = Env::default();
    let mut r = registry();
    let did = r.create_did(&env, USER, vec![0; 32], 0).unwrap();
    assert!(did.starts_with("did:stellar:"));
    assert!(r.create_did(&env, USER, vec![0; 32], 0).is_err());
}

#[test]
fn test_add_claim() {
    let env = Env::default();
    let mut r = registry();
    let did = r.create_did(&env, USER, vec![0; 32], 0).unwrap();
    let claim_id = r.add_claim(&did, s("twitter"), s("@user123"), vec![1, 2, 3, 4], USER, 0).unwrap();
    assert_eq!(claim_id, 1);
}

#[test]
fn test_verify_claim() {
    let env = Env::default();
    let mut r = registry();
    let did = r.create_did(&env, USER, vec![0; 32], 0).unwrap();
    let claim_id = r.add_claim(&did, s("github"), s("user123"), vec![1, 2, 3, 4], USER, 0).unwrap();
    r.verify_claim(ADMIN, &did, claim_id, 0).unwrap();
    assert!(r.is_claim_verified(&did, claim_id).unwrap());
}

#[test]
fn test_revoke_claim() {
    let env = Env::default();
    let mut r = registry();
    let did = r.create_did(&env, USER, vec![0; 32], 0).unwrap();
    let claim_id = r.add_claim(&did, s("email"), s("user@example.com"), vec![1, 2, 3, 4], USER, 0).unwrap();
    r.revoke_claim(&did, claim_id, s("no longer valid"), USER, 0).unwrap();
    assert!(!r.is_claim_verified(&did, claim_id).unwrap());
}

#[test]
fn test_test_delegation() {
    let env = Env::default();
    let mut r = registry();
    let did = r.create_did(&env, USER, vec![0; 32], 0).unwrap();
    r.add_delegation(&did, DELEGATE, vec![s("add_claim")], 86400, 0).unwrap();
    let claim_id = r.add_claim(&did, s("discord"), s("user123#4567"), vec![1, 2, 3, 4], DELEGATE, 0).unwrap();
    assert_eq!(claim_id, 1);
    r.revoke_delegation(&did, DELEGATE, USER).unwrap();
    let result = r.add_claim(&did, s("telegram"), s("@user123"), vec![1, 2, 3, 4], DELEGATE, 0);
    assert!(result.is_err());
}

#[test]
fn test_reputation_scoring() {
    let env = Env::default();
    let mut r = registry();
    let did = r.create_did(&env, USER, vec![0; 32], 0).unwrap();
    assert_eq!(r.get_reputation_score(&did).unwrap(), 100);
    let claim_id = r.add_claim(&did, s("github"), s("verified_user"), vec![1, 2, 3, 4], USER, 0).unwrap();
    r.verify_claim(ADMIN, &did, claim_id, 0).unwrap();
    assert_eq!(r.get_reputation_score(&did).unwrap(), 130);
    r.add_event_attendance(ADMIN, &did, s("event_001"), 50, 0).unwrap();
    assert_eq!(r.get_reputation_score(&did).unwrap(), 180);
}

#[test]
fn test_did_resolution() {
    let env = Env::default();
    let mut r = registry();
    let did = r.create_did(&env, USER, vec![0; 32], 0).unwrap();
    let doc = r.resolve_did(&did).unwrap();
    assert_eq!(doc.id, did);
    assert_eq!(doc.controller, USER);
    assert_eq!(doc.public_key, vec![0u8; 32]);
    assert!(!doc.deactivated);
    assert_eq!(doc.reputation_score, 100);
    let resolved = r.get_did_by_address(USER);
    assert!(resolved.is_some());
    assert_eq!(resolved.unwrap(), did);
}

#[test]
fn identity_test_pause_unpause() {
    let env = Env::default();
    let mut r = registry();
    r.pause(ADMIN).unwrap();
    assert!(r.create_did(&env, USER, vec![0; 32], 0).is_err());
    r.unpause(ADMIN).unwrap();
    let did = r.create_did(&env, USER, vec![0; 32], 0).unwrap();
    assert!(did.starts_with("did:stellar:"));
}

#[test]
fn test_deactivate_did() {
    let env = Env::default();
    let mut r = registry();
    let did = r.create_did(&env, USER, vec![0; 32], 0).unwrap();
    r.deactivate_did(&did, 0).unwrap();
    assert!(r.resolve_did(&did).unwrap().deactivated);
}

#[test]
fn test_get_verified_claims_by_type() {
    let env = Env::default();
    let mut r = registry();
    let did = r.create_did(&env, USER, vec![0; 32], 0).unwrap();
    let github = r.add_claim(&did, s("github"), s("user1"), vec![1], USER, 0).unwrap();
    let _twitter = r.add_claim(&did, s("twitter"), s("@user1"), vec![2], USER, 0).unwrap();
    let email = r.add_claim(&did, s("github"), s("user2"), vec![3], USER, 0).unwrap();
    r.verify_claim(ADMIN, &did, github, 0).unwrap();
    r.verify_claim(ADMIN, &did, email, 0).unwrap();
    let claims = r.get_verified_claims_by_type(&did, &s("github")).unwrap();
    assert_eq!(claims.len(), 2);
    let found: Vec<String> = claims.iter().map(|c| c.claim_value.clone()).collect();
    assert!(found.contains(&s("user1")));
    assert!(found.contains(&s("user2")));
}

#[test]
fn identity_did_is_sha256_hex_of_account() {
    let env = Env::default();
    let mut r = registry();
    let did = r.create_did(&env, USER, vec![0; 32], 0).unwrap();
    // "did:stellar:" followed by 64 lower-case hex digits.
    assert_eq!(did.len(), 12 + 64);
    assert!(did[12..].chars().all(|c| c.is_ascii_hexdigit() && !c.is_ascii_uppercase()));
    let other = r.create_did(&env, STRANGER, vec![0; 32], 0).unwrap();
    assert_ne!(did, other);
}

#[test]
fn identity_only_verifiers_confirm() {
    let env = Env::default();
    let mut r = registry();
    let did = r.create_did(&env, USER, vec![0; 32], 0).unwrap();
    let claim_id = r.add_claim(&did, s("github"), s("user"), vec![1], USER, 0).unwrap();
    assert_eq!(r.verify_claim(STRANGER, &did, claim_id, 0), Err(IdentityError::NotAuthorized));
    assert_eq!(r.add_event_attendance(STRANGER, &did, s("e"), 10, 0), Err(IdentityError::NotAuthorized));
    r.grant_role(ADMIN, s("VERIFIER"), STRANGER).unwrap();
    r.verify_claim(STRANGER, &did, claim_id, 0).unwrap();
}

#[test]
fn identity_attendance_capped_and_revoked_unverifiable() {
    let env = Env::default();
    let mut r = registry();
    let did = r.create_did(&env, USER, vec![0; 32], 0).unwrap();
    r.add_event_attendance(ADMIN, &did, s("big"), 500, 0).unwrap();
    assert_eq!(r.get_reputation_score(&did).unwrap(), 150);
    let claim_id = r.add_claim(&did, s("github"), s("user"), vec![1], USER, 0).unwrap();
    r.revoke_claim(&did, claim_id, s("gone"), USER, 0).unwrap();
    assert_eq!(r.verify_claim(ADMIN, &did, claim_id, 0), Err(IdentityError::ClaimRevoked));
    assert_eq!(r.create_did(&env, USER, vec![0; 32], 0), Err(IdentityError::DidExists));
}
