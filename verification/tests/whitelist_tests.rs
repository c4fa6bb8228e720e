use gathera::whitelist::{hash_leaf, WhitelistContract, WhitelistError};
use soroban_sdk::testutils::Address as _;
use soroban_sdk::xdr::ToXdr;
use soroban_sdk::{Address, Bytes, Env};
use std::collections::HashMap;

/// The bytes that stand for an account's address encoding in these tests: the XDR
/// encoding of its number.
fn xdr(env: &Env, account: u64) -> Vec<u8> {
    account.to_xdr(env).iter().collect()
}

const ADMIN: u64 = 1;
const USER1: u64 = 2;
const USER2: u64 = 3;
const RECIPIENT: u64 = 4;
const DELEGATEE: u64 = 5;
const TOKEN: u64 = 100;
const CONTRACT: u64 = 200;

/// The root over two leaves, and each leaf's proof (the other leaf).
fn create_test_merkle(env: &Env, addr1: u64, addr2: u64) -> (Vec<u8>, Vec<Vec<u8>>, Vec<Vec<u8>>) {
    let l0 = hash_leaf(env, &xdr(env, addr1), 100);
    let l1 = hash_leaf(env, &xdr(env, addr2), 200);
    let data: Vec<u8> = if l0 < l1 { [l0.clone(), l1.clone()].concat() } else { [l1.clone(), l0.clone()].concat() };
    let root = env.crypto().sha256(&Bytes::from_slice(env, &data)).to_array().to_vec();
    (root, vec![l1], vec![l0])
}

struct Bank {
    balances: HashMap<u64, i128>,
}

impl Bank {
    fn new() -> Self {
        Bank { balances: HashMap::new() }
    }
    fn balance(&self, who: u64) -> i128 {
        *self.balances.get(&who).unwrap_or(&0)
    }
    fn transfer(&mut self, from: u64, to: u64, amount: i128) {
        *self.balances.entry(from).or_insert(0) -= amount;
        *self.balances.entry(to).or_insert(0) += amount;
    }
}

fn funded_campaign(w: &mut WhitelistContract, bank: &mut Bank, root: Vec<u8>, deadline: u64) -> u32 {
    bank.balances.insert(ADMIN, 1000);
    let id = w.create_campaign(ADMIN, TOKEN, root, deadline, 300).unwrap();
    bank.transfer(ADMIN, CONTRACT, 300);
    id
}

#[test]
fn test_whitelist_flow() {
    let env = Env::default();
    let mut bank = Bank::new();
    let mut w = WhitelistContract::new();
    w.init(ADMIN).unwrap();
    let (root, proof1, proof2) = create_test_merkle(&env, USER1, USER2);
    let id = funded_campaign(&mut w, &mut bank, root, 10000);
    let p = w.claim(&env, id, USER1, &xdr(&env, USER1), 100, &proof1, None, 0).unwrap();
    bank.transfer(CONTRACT, p.to, p.amount);
    assert_eq!(bank.balance(USER1), 100);
    let p = w.claim(&env, id, USER2, &xdr(&env, USER2), 200, &proof2, Some(RECIPIENT), 0).unwrap();
    bank.transfer(CONTRACT, p.to, p.amount);
    assert_eq!(bank.balance(RECIPIENT), 200);
    assert_eq!(w.get_campaign(id).unwrap().claimed_amount, 300);
}

#[test]
fn whitelist_test_delegation() {
    let env = Env::default();
    let mut bank = Bank::new();
    let mut w = WhitelistContract::new();
    w.init(ADMIN).unwrap();
    let (root, proof1, _) = create_test_merkle(&env, USER1, USER2);
    let id = funded_campaign(&mut w, &mut bank, root, 10000);
    w.delegate_claim(id, USER1, DELEGATEE);
    let p = w.claim_as_delegate(&env, id, USER1, &xdr(&env, USER1), DELEGATEE, 100, &proof1, None, 0).unwrap();
    bank.transfer(CONTRACT, p.to, p.amount);
    assert_eq!(bank.balance(USER1), 100);
}

#[test]
#[should_panic(expected = "already claimed")]
fn test_double_claim_fails() {
    let env = Env::default();
    let mut bank = Bank::new();
    let mut w = WhitelistContract::new();
    w.init(ADMIN).unwrap();
    let (root, proof1, _) = create_test_merkle(&env, USER1, USER1);
    let id = funded_campaign(&mut w, &mut bank, root, 10000);
    w.claim(&env, id, USER1, &xdr(&env, USER1), 100, &proof1, None, 0).unwrap();
    w.claim(&env, id, USER1, &xdr(&env, USER1), 100, &proof1, None, 0).expect("already claimed");
}

#[test]
fn test_refund() {
    let env = Env::default();
    let mut bank = Bank::new();
    let mut w = WhitelistContract::new();
    w.init(ADMIN).unwrap();
    let (root, _, _) = create_test_merkle(&env, USER1, USER1);
    let id = funded_campaign(&mut w, &mut bank, root, 10);
    let p = w.refund(id, 20).unwrap().unwrap();
    bank.transfer(CONTRACT, p.to, p.amount);
    assert_eq!(bank.balance(ADMIN), 1000);
}

#[test]
fn whitelist_wrong_amount_or_proof_refused() {
    let env = Env::default();
    let mut bank = Bank::new();
    let mut w = WhitelistContract::new();
    w.init(ADMIN).unwrap();
    let (root, proof1, proof2) = create_test_merkle(&env, USER1, USER2);
    let id = funded_campaign(&mut w, &mut bank, root, 10000);
    assert_eq!(w.claim(&env, id, USER1, &xdr(&env, USER1), 101, &proof1, None, 0), Err(WhitelistError::InvalidProof));
    assert_eq!(w.claim(&env, id, USER1, &xdr(&env, USER1), 100, &proof2, None, 0), Err(WhitelistError::InvalidProof));
    assert_eq!(w.claim(&env, id, USER1, &xdr(&env, USER1), 100, &proof1, None, 10001), Err(WhitelistError::CampaignExpired));
    assert_eq!(w.refund(id, 10000), Err(WhitelistError::CampaignNotYetFinished));
    w.refund(id, 10001).unwrap();
    assert_eq!(w.refund(id, 10002), Err(WhitelistError::AlreadyRefunded));
}

#[test]
fn whitelist_undelegated_claim_refused() {
    let env = Env::default();
    let mut bank = Bank::new();
    let mut w = WhitelistContract::new();
    w.init(ADMIN).unwrap();
    let (root, proof1, _) = create_test_merkle(&env, USER1, USER2);
    let id = funded_campaign(&mut w, &mut bank, root, 10000);
    assert!(w.claim_as_delegate(&env, id, USER1, &xdr(&env, USER1), DELEGATEE, 100, &proof1, None, 0).is_err());
}

#[test]
fn leaf_is_digest_of_address_and_amount_xdr() {
    let env = Env::default();
    let a = Address::generate(&env);
    let mut message = a.clone().to_xdr(&env);
    message.append(&100i128.to_xdr(&env));
    let expected: Vec<u8> = env.crypto().sha256(&message).to_array().to_vec();
    let a_xdr: Vec<u8> = a.to_xdr(&env).iter().collect();
    assert_eq!(hash_leaf(&env, &a_xdr, 100), expected);
    assert_ne!(hash_leaf(&env, &a_xdr, 101), expected);
}

#[test]
fn amount_encoding_is_tagged_big_endian() {
    let env = Env::default();
    let b: Vec<u8> = 100i128.to_xdr(&env).iter().collect();
    let mut expected = vec![0u8, 0, 0, 10];
    expected.extend_from_slice(&100u128.to_be_bytes());
    assert_eq!(b, expected);
    let n: Vec<u8> = (-2i128).to_xdr(&env).iter().collect();
    let mut expected = vec![0u8, 0, 0, 10];
    expected.extend_from_slice(&(-2i128).to_be_bytes());
    assert_eq!(n, expected);
}
