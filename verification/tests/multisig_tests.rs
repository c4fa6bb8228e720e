use gathera::multisig::{BatchStatus, MultisigError, Role, TransactionStatus, WalletConfig};
use gathera::multisig_wallet::MultisigWalletContract;
use soroban_sdk::Env;
use std::collections::HashMap;

const ADMIN: u64 = 1;
const SIGNER1: u64 = 11;
const SIGNER2: u64 = 12;
const SIGNER3: u64 = 13;
const NEW_SIGNER: u64 = 14;
const RECIPIENT: u64 = 21;
const RECIPIENT2: u64 = 22;
const TOKEN: u64 = 100;
const WALLET: u64 = 200;

fn create_test_config() -> WalletConfig {
    WalletConfig {
        m: 2,
        n: 3,
        daily_spending_limit: 1000000000,
        timelock_threshold: 500000000,
        timelock_duration: 86400,
        transaction_expiry: 604800,
        max_batch_size: 10,
        emergency_freeze_duration: 3600,
    }
}

fn setup_multisig_wallet() -> MultisigWalletContract {
    let mut w = MultisigWalletContract::new(&Env::default());
    w.initialize(ADMIN, create_test_config(), &vec![SIGNER1, SIGNER2, SIGNER3], 0).unwrap();
    w
}

/// Token balances beside the wallet, as the token contract keeps them.
struct Bank {
    balances: HashMap<u64, i128>,
}

impl Bank {
    fn new() -> Self {
        Bank { balances: HashMap::new() }
    }
    fn balance(&self, who: u64) -> i128 {
        *self.balances.get(&who).unwrap_or(&0)
    }
    fn mint(&mut self, who: u64, amount: i128) {
        *self.balances.entry(who).or_insert(0) += amount;
    }
    /// Pays out of the wallet; a payment the wallet cannot cover fails.
    fn pay(&mut self, to: u64, amount: i128) -> bool {
        if self.balance(WALLET) < amount {
            return false;
        }
        *self.balances.entry(WALLET).or_insert(0) -= amount;
        *self.balances.entry(to).or_insert(0) += amount;
        true
    }
}

#[test]
fn multisig_test_initialize() {
    let config = create_test_config();
    let mut w = MultisigWalletContract::new(&Env::default());
    w.initialize(ADMIN, config, &vec![SIGNER1, SIGNER2, SIGNER3], 0).unwrap();
    let stored_config = w.get_config().unwrap();
    assert_eq!(stored_config.m, config.m);
    assert_eq!(stored_config.n, config.n);
    assert_eq!(stored_config.daily_spending_limit, config.daily_spending_limit);
    assert_eq!(w.version(), 1);
    assert!(!w.paused);
    assert!(!w.is_frozen());
    assert_eq!(w.get_signers().len(), 3);
}

#[test]
fn multisig_test_double_initialization_fails() {
    let config = create_test_config();
    let mut w = MultisigWalletContract::new(&Env::default());
    w.initialize(ADMIN, config, &vec![SIGNER1, SIGNER2], 0).unwrap();
    let result = w.initialize(ADMIN, config, &vec![SIGNER1, SIGNER2], 0);
    assert_eq!(result, Err(MultisigError::AlreadyInitialized));
}

#[test]
fn test_add_signer() {
    let mut w = setup_multisig_wallet();
    w.add_signer(NEW_SIGNER, Role::Owner, 1, 0).unwrap();
    let all_signers = w.get_signers();
    assert_eq!(all_signers.len(), 4);
    let info = all_signers.iter().find(|s| s.address == NEW_SIGNER).unwrap();
    assert_eq!(info.role, Role::Owner);
    assert_eq!(info.weight, 1);
}

#[test]
fn test_remove_signer() {
    let mut w = setup_multisig_wallet();
    w.remove_signer(SIGNER1).unwrap();
    let all_signers = w.get_signers();
    assert_eq!(all_signers.len(), 2);
    assert!(all_signers.iter().all(|s| s.address != SIGNER1));
}

#[test]
fn test_remove_signer_would_make_m_greater_than_n() {
    let config = WalletConfig {
        m: 2,
        n: 2,
        daily_spending_limit: 1000000000,
        timelock_threshold: 500000000,
        timelock_duration: 86400,
        transaction_expiry: 604800,
        max_batch_size: 10,
        emergency_freeze_duration: 3600,
    };
    let mut w = MultisigWalletContract::new(&Env::default());
    w.initialize(ADMIN, config, &vec![SIGNER1, SIGNER2], 0).unwrap();
    assert_eq!(w.remove_signer(SIGNER1), Err(MultisigError::InvalidMOfN));
}

#[test]
fn test_propose_transaction() {
    let env = Env::default();
    let mut w = setup_multisig_wallet();
    let id = w.propose_transaction(&env, RECIPIENT, TOKEN, 1000000, vec![], SIGNER1, 1, 0).unwrap();
    let t = w.get_transaction(&id).unwrap();
    assert_eq!(t.to, RECIPIENT);
    assert_eq!(t.amount, 1000000);
    assert_eq!(t.proposer, SIGNER1);
    assert_eq!(t.status, TransactionStatus::Proposed);
    assert_eq!(id.len(), 32);
}

#[test]
fn test_propose_transaction_with_timelock() {
    let env = Env::default();
    let mut w = setup_multisig_wallet();
    let id = w.propose_transaction(&env, RECIPIENT, TOKEN, 1000000000, vec![], SIGNER1, 1, 0).unwrap();
    let t = w.get_transaction(&id).unwrap();
    assert!(t.timelock_until > 0);
}

#[test]
fn test_propose_transaction_invalid_nonce() {
    let env = Env::default();
    let mut w = setup_multisig_wallet();
    w.propose_transaction(&env, RECIPIENT, TOKEN, 1000000, vec![], SIGNER1, 1, 0).unwrap();
    let result = w.propose_transaction(&env, RECIPIENT, TOKEN, 1000000, vec![], SIGNER1, 1, 0);
    assert_eq!(result, Err(MultisigError::NonceUsed));
}

#[test]
fn test_approve_transaction() {
    let env = Env::default();
    let mut w = setup_multisig_wallet();
    let id = w.propose_transaction(&env, RECIPIENT, TOKEN, 1000000, vec![], SIGNER1, 1, 0).unwrap();
    w.sign_transaction(&id, SIGNER2, 0).unwrap();
    let t = w.get_transaction(&id).unwrap();
    assert!(t.signatures.contains(&SIGNER2));
    // Still waiting: one signature of weight 1 out of the 2 required.
    assert_eq!(t.status, TransactionStatus::Proposed);
}

#[test]
fn test_execute_transaction() {
    let env = Env::default();
    let mut bank = Bank::new();
    bank.mint(WALLET, 1000000000);
    let mut w = setup_multisig_wallet();
    let before = bank.balance(RECIPIENT);
    let id = w.propose_transaction(&env, RECIPIENT, TOKEN, 1000000, vec![], SIGNER1, 1, 0).unwrap();
    // This wallet counts signatures only: the proposer signs as well.
    w.sign_transaction(&id, SIGNER1, 0).unwrap();
    w.sign_transaction(&id, SIGNER2, 0).unwrap();
    let transfer = w.execute_transaction(&id, 0).unwrap();
    assert!(bank.pay(transfer.to, transfer.amount));
    let t = w.get_transaction(&id).unwrap();
    assert_eq!(t.status, TransactionStatus::Executed);
    assert_eq!(bank.balance(RECIPIENT), before + 1000000);
}

#[test]
fn test_execute_transaction_before_approval_threshold() {
    let env = Env::default();
    let mut w = setup_multisig_wallet();
    let id = w.propose_transaction(&env, RECIPIENT, TOKEN, 1000000, vec![], SIGNER1, 1, 0).unwrap();
    assert_eq!(w.execute_transaction(&id, 0), Err(MultisigError::InsufficientSignatures));
}

/// Proposes the two transfers of the batch tests and the batch over them.
fn propose_two_and_batch(env: &Env, w: &mut MultisigWalletContract) -> Vec<u8> {
    let t1 = w.propose_transaction(env, RECIPIENT, TOKEN, 1000000, vec![], SIGNER1, 1, 0).unwrap();
    let t2 = w.propose_transaction(env, RECIPIENT2, TOKEN, 2000000, vec![], SIGNER1, 2, 0).unwrap();
    w.propose_batch(env, vec![t1, t2], SIGNER1, 3, 0).unwrap()
}

#[test]
fn test_create_batch() {
    let env = Env::default();
    let mut w = setup_multisig_wallet();
    let batch_id = propose_two_and_batch(&env, &mut w);
    let batch = w.get_batch(&batch_id).unwrap();
    assert_eq!(batch.transactions.len(), 2);
    assert_eq!(batch.proposer, SIGNER1);
    assert_eq!(batch.status, BatchStatus::Proposed);
}

#[test]
fn test_approve_and_execute_batch() {
    let env = Env::default();
    let mut bank = Bank::new();
    bank.mint(WALLET, 1000000000);
    let mut w = setup_multisig_wallet();
    let r1 = bank.balance(RECIPIENT);
    let r2 = bank.balance(RECIPIENT2);
    let batch_id = propose_two_and_batch(&env, &mut w);
    let batch = w.get_batch(&batch_id).unwrap();
    // The members of a batch execute when they are approved themselves.
    for id in batch.transactions.iter() {
        w.sign_transaction(id, SIGNER1, 0).unwrap();
        w.sign_transaction(id, SIGNER2, 0).unwrap();
    }
    w.sign_batch(&batch_id, SIGNER1, 0).unwrap();
    w.sign_batch(&batch_id, SIGNER2, 0).unwrap();
    let transfers = w.execute_batch(&batch_id, 0).unwrap();
    for t in transfers.iter() {
        assert!(bank.pay(t.to, t.amount));
    }
    let batch = w.get_batch(&batch_id).unwrap();
    assert_eq!(batch.status, BatchStatus::Executed);
    assert_eq!(bank.balance(RECIPIENT), r1 + 1000000);
    assert_eq!(bank.balance(RECIPIENT2), r2 + 2000000);
}

#[test]
fn test_test_pause_and_unpause() {
    let mut w = setup_multisig_wallet();
    assert!(!w.paused);
    w.pause().unwrap();
    assert!(w.paused);
    w.unpause().unwrap();
    assert!(!w.paused);
}

#[test]
fn test_emergency_freeze() {
    let env = Env::default();
    let mut w = setup_multisig_wallet();
    assert!(!w.is_frozen());
    w.emergency_freeze(3600, 0).unwrap();
    assert!(w.is_frozen());
    let result = w.propose_transaction(&env, RECIPIENT, TOKEN, 1000000, vec![], SIGNER1, 1, 0);
    assert_eq!(result, Err(MultisigError::WalletFrozen));
}

#[test]
fn test_test_timelock_execution() {
    let env = Env::default();
    let mut w = setup_multisig_wallet();
    let id = w.propose_transaction(&env, RECIPIENT, TOKEN, 1000000000, vec![], SIGNER1, 1, 0).unwrap();
    w.sign_transaction(&id, SIGNER1, 0).unwrap();
    w.sign_transaction(&id, SIGNER2, 0).unwrap();
    assert_eq!(w.execute_transaction(&id, 0), Err(MultisigError::TimelockNotExpired));
    w.execute_transaction(&id, 86400 + 1).unwrap();
    let t = w.get_transaction(&id).unwrap();
    assert_eq!(t.status, TransactionStatus::Executed);
}

#[test]
fn test_transaction_expiry() {
    let env = Env::default();
    let mut w = setup_multisig_wallet();
    let id = w.propose_transaction(&env, RECIPIENT, TOKEN, 1000000, vec![], SIGNER1, 1, 0).unwrap();
    let later = 604800 + 1;
    assert_eq!(w.sign_transaction(&id, SIGNER2, later), Err(MultisigError::TransactionExpired));
    assert!(w.execute_transaction(&id, later).is_err());
}

#[test]
fn test_nonce_management() {
    let env = Env::default();
    let mut w = setup_multisig_wallet();
    for i in 1..=5u64 {
        w.propose_transaction(&env, RECIPIENT, TOKEN, 1000000, vec![], SIGNER1, i, 0).unwrap();
    }
    let result = w.propose_transaction(&env, RECIPIENT, TOKEN, 1000000, vec![], SIGNER1, 3, 0);
    assert_eq!(result, Err(MultisigError::NonceUsed));
}

#[test]
fn test_edge_case_zero_amount_transaction() {
    let env = Env::default();
    let mut w = setup_multisig_wallet();
    let result = w.propose_transaction(&env, RECIPIENT, TOKEN, 0, vec![], SIGNER1, 1, 0);
    assert!(result.is_err());
}

#[test]
fn test_edge_case_max_batch_size() {
    let env = Env::default();
    let mut w = setup_multisig_wallet();
    let mut ids = Vec::new();
    for i in 0..15u64 {
        ids.push(w.propose_transaction(&env, 300 + i, TOKEN, 1000000, vec![], SIGNER1, i + 1, 0).unwrap());
    }
    let result = w.propose_batch(&env, ids, SIGNER1, 16, 0);
    assert!(result.is_err());
}

#[test]
fn multisig_test_reentrancy_protection() {
    let env = Env::default();
    let mut w = setup_multisig_wallet();
    let id = w.propose_transaction(&env, RECIPIENT, TOKEN, 1000000, vec![], SIGNER1, 1, 0).unwrap();
    w.sign_transaction(&id, SIGNER1, 0).unwrap();
    w.sign_transaction(&id, SIGNER2, 0).unwrap();
    w.execute_transaction(&id, 0).unwrap();
    // A second execution of the same transaction is refused.
    assert!(w.execute_transaction(&id, 0).is_err());
}

#[test]
fn test_daily_spending_limit() {
    let env = Env::default();
    let mut w = setup_multisig_wallet();
    // Within the daily limit, and not above the timelock threshold: executes at once.
    let id1 = w.propose_transaction(&env, RECIPIENT, TOKEN, 500000000, vec![], SIGNER1, 1, 0).unwrap();
    w.sign_transaction(&id1, SIGNER1, 0).unwrap();
    w.sign_transaction(&id1, SIGNER2, 0).unwrap();
    w.execute_transaction(&id1, 0).unwrap();
    // The second would exceed the limit.
    let id2 = w.propose_transaction(&env, RECIPIENT, TOKEN, 600000000, vec![], SIGNER1, 2, 0).unwrap();
    w.sign_transaction(&id2, SIGNER1, 0).unwrap();
    w.sign_transaction(&id2, SIGNER2, 0).unwrap();
    assert!(w.execute_transaction(&id2, 0).is_err());
}

#[test]
fn multisig_timelock_only_above_threshold() {
    let env = Env::default();
    let mut w = setup_multisig_wallet();
    let at = w.propose_transaction(&env, RECIPIENT, TOKEN, 500000000, vec![], SIGNER1, 1, 0).unwrap();
    assert_eq!(w.get_transaction(&at).unwrap().timelock_until, 0);
    let above = w.propose_transaction(&env, RECIPIENT, TOKEN, 500000001, vec![], SIGNER1, 2, 0).unwrap();
    assert_eq!(w.get_transaction(&above).unwrap().timelock_until, 86400);
    // Only a zero amount is refused.
    assert_eq!(
        w.propose_transaction(&env, RECIPIENT, TOKEN, 0, vec![], SIGNER1, 3, 0),
        Err(MultisigError::InvalidAmount)
    );
}

#[test]
fn multisig_daily_limit_refuses_excess() {
    let env = Env::default();
    let mut w = setup_multisig_wallet();
    let a = w.propose_transaction(&env, RECIPIENT, TOKEN, 400000000, vec![], SIGNER1, 1, 0).unwrap();
    let b = w.propose_transaction(&env, RECIPIENT, TOKEN, 400000000, vec![], SIGNER1, 2, 0).unwrap();
    let c = w.propose_transaction(&env, RECIPIENT, TOKEN, 400000000, vec![], SIGNER1, 3, 0).unwrap();
    for id in [&a, &b, &c] {
        w.sign_transaction(id, SIGNER1, 0).unwrap();
        w.sign_transaction(id, SIGNER2, 0).unwrap();
    }
    w.execute_transaction(&a, 0).unwrap();
    w.execute_transaction(&b, 0).unwrap();
    assert_eq!(w.execute_transaction(&c, 0), Err(MultisigError::DailySpendingLimitExceeded));
    // The next day the limit starts afresh.
    w.execute_transaction(&c, 86400).unwrap();
}

#[test]
fn multisig_distinct_proposals_get_distinct_ids() {
    let env = Env::default();
    let mut w = setup_multisig_wallet();
    let a = w.propose_transaction(&env, RECIPIENT, TOKEN, 1000000, vec![], SIGNER1, 1, 0).unwrap();
    let b = w.propose_transaction(&env, RECIPIENT, TOKEN, 1000000, vec![], SIGNER1, 2, 0).unwrap();
    assert_ne!(a, b);
}

#[test]
fn multisig_invalid_config_refused() {
    let mut config = create_test_config();
    config.m = 4;
    let mut w = MultisigWalletContract::new(&Env::default());
    assert_eq!(w.initialize(ADMIN, config, &vec![SIGNER1], 0), Err(MultisigError::InvalidMOfN));
    let mut config = create_test_config();
    config.daily_spending_limit = 0;
    assert_eq!(w.initialize(ADMIN, config, &vec![SIGNER1], 0), Err(MultisigError::InvalidAmount));
}

#[test]
fn multisig_nonces_are_per_proposer() {
    let env = Env::default();
    let mut w = setup_multisig_wallet();
    assert_eq!(w.validate_nonce(SIGNER1, 1), Ok(()));
    w.use_nonce(SIGNER1, 7);
    assert_eq!(w.validate_nonce(SIGNER1, 7), Err(MultisigError::NonceUsed));
    assert_eq!(w.validate_nonce(SIGNER1, 6), Err(MultisigError::NonceUsed));
    assert_eq!(w.validate_nonce(SIGNER1, 8), Ok(()));
    // Another proposer's nonces are untouched.
    assert_eq!(w.validate_nonce(SIGNER2, 1), Ok(()));
    w.propose_transaction(&env, RECIPIENT, TOKEN, 1000000, vec![], SIGNER2, 1, 0).unwrap();
    assert_eq!(w.validate_nonce(SIGNER1, 8), Ok(()));
    assert_eq!(w.validate_nonce(SIGNER2, 1), Err(MultisigError::NonceUsed));
}
