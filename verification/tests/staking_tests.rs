use gathera::staking::{StakingContract, StakingError};
use std::collections::HashMap;

const ADMIN: u64 = 1;
const USER: u64 = 2;
const USER2: u64 = 3;
const UNAUTHORIZED: u64 = 4;
const MODERATOR: u64 = 5;
const TOKEN: u64 = 100;
const REWARD_TOKEN: u64 = 101;
const CONTRACT: u64 = 200;
const LOCK: u64 = 30 * 24 * 60 * 60;

/// Token balances, kept beside the contract as the token contract would keep them.
struct Bank {
    balances: HashMap<u64, i128>,
}

impl Bank {
    fn new() -> Self {
        Bank { balances: HashMap::new() }
    }
    fn balance(&self, who: u64) -> i128 {
        *self.balances.get(&who).unwrap_or(&0)
    }
    fn mint(&mut self, who: u64, amount: i128) {
        *self.balances.entry(who).or_insert(0) += amount;
    }
    /// Moves `amount` when `from` holds it; a transfer the sender cannot cover fails.
    fn transfer(&mut self, from: u64, to: u64, amount: i128) -> bool {
        if self.balance(from) < amount {
            return false;
        }
        *self.balances.entry(from).or_insert(0) -= amount;
        *self.balances.entry(to).or_insert(0) += amount;
        true
    }
}

struct Setup {
    bank: Bank,
    staking: StakingContract,
    now: u64,
}

impl Setup {
    fn new(user: u64) -> Self {
        let mut bank = Bank::new();
        bank.mint(user, 10_000_000);
        let mut staking = StakingContract::new();
        staking.initialize(ADMIN, TOKEN, TOKEN, 1000, 0).unwrap();
        Setup { bank, staking, now: 0 }
    }

    fn stake(&mut self, user: u64, amount: i128, lock: u64, tier: u32) -> Result<(), StakingError> {
        let ok = self.bank.balance(user) >= amount;
        let r = self.staking.stake(user, amount, lock, tier, self.now, ok);
        if r.is_ok() {
            self.bank.transfer(user, CONTRACT, amount);
        }
        r
    }

    fn unstake(&mut self, user: u64, amount: i128) -> Result<(), StakingError> {
        assert!(self.staking.can_unstake(user, amount, self.now));
        let ok = if amount > 0 && self.staking.user_info(user).amount >= amount {
            self.bank.balance(CONTRACT) >= self.staking.unstake_payout_of(user, amount, self.now)
        } else {
            true
        };
        let paid = self.staking.unstake(user, amount, self.now, ok)?;
        assert!(self.bank.transfer(CONTRACT, user, paid));
        Ok(())
    }

    fn claim(&mut self, user: u64, compound: bool) -> Result<(), StakingError> {
        let ok = compound
            || match self.staking.pending_reward(user, self.now) {
                Some(r) => r <= 0 || self.bank.balance(CONTRACT) >= r,
                None => true,
            };
        let paid = self.staking.claim(user, compound, self.now, ok)?;
        if paid > 0 {
            assert!(self.bank.transfer(CONTRACT, user, paid));
        }
        Ok(())
    }

    fn emergency_withdraw(&mut self, user: u64) -> Result<(), StakingError> {
        let paid = self.staking.emergency_withdraw(user)?;
        assert!(self.bank.transfer(CONTRACT, user, paid));
        Ok(())
    }
}

#[test]
fn test_initialization() {
    let mut staking = StakingContract::new();
    staking.initialize(ADMIN, TOKEN, TOKEN, 1000, 0).unwrap();
    assert_eq!(staking.version(), 1);
    assert!(staking.has_role(&"ADMIN".to_string(), ADMIN));
}

#[test]
fn test_test_double_initialization_fails() {
    let mut staking = StakingContract::new();
    staking.initialize(ADMIN, TOKEN, TOKEN, 1000, 0).unwrap();
    let result = staking.initialize(ADMIN, TOKEN, TOKEN, 1000, 0);
    assert_eq!(result, Err(StakingError::AlreadyInitialized));
}

#[test]
fn test_set_tier_unauthorized() {
    let mut s = Setup::new(USER);
    let result = s.staking.set_tier(UNAUTHORIZED, 1, 1000, 150);
    assert_eq!(result, Err(StakingError::Unauthorized));
}

#[test]
fn test_stake_zero_amount_fails() {
    let mut s = Setup::new(USER);
    let result = s.stake(USER, 0, LOCK, 1);
    assert_eq!(result, Err(StakingError::AmountMustBePositive));
}

#[test]
fn test_stake_insufficient_balance() {
    let mut s = Setup::new(USER);
    let result = s.stake(USER, 20_000_000, LOCK, 1);
    assert_eq!(result, Err(StakingError::InsufficientBalance));
}

#[test]
fn test_stake_insufficient_tier_amount() {
    let mut s = Setup::new(USER);
    s.staking.set_tier(ADMIN, 1, 1000, 150).unwrap();
    let result = s.stake(USER, 500, LOCK, 1);
    assert_eq!(result, Err(StakingError::InsufficientAmountForTier));
}

#[test]
fn test_claim_rewards_compound() {
    let mut s = Setup::new(USER);
    s.staking.set_tier(ADMIN, 1, 1000, 150).unwrap();
    s.stake(USER, 2000, LOCK, 1).unwrap();
    s.now += 10;
    let balance_before = s.bank.balance(USER);
    s.claim(USER, true).unwrap();
    let user_info = s.staking.user_info(USER);
    assert!(user_info.amount > 2000);
    assert_eq!(s.bank.balance(USER), balance_before);
}

#[test]
fn test_claim_different_tokens_compound_fails() {
    let mut bank = Bank::new();
    let mut staking = StakingContract::new();
    staking.initialize(ADMIN, TOKEN, REWARD_TOKEN, 1000, 0).unwrap();
    bank.mint(USER, 10_000_000);
    staking.set_tier(ADMIN, 1, 1000, 150).unwrap();
    let ok = bank.balance(USER) >= 2000;
    staking.stake(USER, 2000, LOCK, 1, 0, ok).unwrap();
    let result = staking.claim(USER, true, 10, true);
    assert_eq!(result, Err(StakingError::RewardTokenDiffers));
}

#[test]
fn test_unstake_before_lock_expiry() {
    let mut s = Setup::new(USER);
    s.staking.set_tier(ADMIN, 1, 1000, 150).unwrap();
    s.stake(USER, 2000, LOCK, 1).unwrap();
    let balance_before = s.bank.balance(USER);
    s.unstake(USER, 1000).unwrap();
    let expected_withdrawal = 1000 - (1000 * 20 / 100);
    assert_eq!(s.bank.balance(USER), balance_before + expected_withdrawal);
}

#[test]
fn test_unstake_after_lock_expiry() {
    let mut s = Setup::new(USER);
    s.staking.set_tier(ADMIN, 1, 1000, 150).unwrap();
    s.stake(USER, 2000, LOCK, 1).unwrap();
    s.now += LOCK + 1;
    let balance_before = s.bank.balance(USER);
    s.unstake(USER, 1000).unwrap();
    assert_eq!(s.bank.balance(USER), balance_before + 1000);
}

#[test]
fn test_unstake_insufficient_balance() {
    let mut s = Setup::new(USER);
    s.staking.set_tier(ADMIN, 1, 1000, 150).unwrap();
    s.stake(USER, 2000, LOCK, 1).unwrap();
    let result = s.unstake(USER, 3000);
    assert_eq!(result, Err(StakingError::InsufficientBalance));
}

#[test]
fn test_unstake_zero_amount_fails() {
    let mut s = Setup::new(USER);
    s.staking.set_tier(ADMIN, 1, 1000, 150).unwrap();
    s.stake(USER, 2000, LOCK, 1).unwrap();
    let result = s.unstake(USER, 0);
    assert_eq!(result, Err(StakingError::AmountMustBePositive));
}

#[test]
fn test_unstake_user_not_found() {
    let mut s = Setup::new(USER);
    let result = s.unstake(USER, 1000);
    assert_eq!(result, Err(StakingError::UserNotFound));
}

#[test]
fn test_slash_unauthorized() {
    let mut s = Setup::new(USER);
    s.staking.set_tier(ADMIN, 1, 1000, 150).unwrap();
    s.stake(USER, 2000, LOCK, 1).unwrap();
    let result = s.staking.slash(UNAUTHORIZED, USER, 1000, s.now);
    assert_eq!(result, Err(StakingError::Unauthorized));
}

#[test]
fn test_slash_success() {
    let mut s = Setup::new(USER);
    s.staking.set_tier(ADMIN, 1, 1000, 150).unwrap();
    s.stake(USER, 2000, LOCK, 1).unwrap();
    s.staking.slash(ADMIN, USER, 1000, s.now).unwrap();
    let user_info = s.staking.user_info(USER);
    assert_eq!(user_info.amount, 1000);
}

#[test]
fn test_slash_amount_exceeds_balance() {
    let mut s = Setup::new(USER);
    s.staking.set_tier(ADMIN, 1, 1000, 150).unwrap();
    s.stake(USER, 2000, LOCK, 1).unwrap();
    let result = s.staking.slash(ADMIN, USER, 3000, s.now);
    assert_eq!(result, Err(StakingError::SlashingAmountExceedsBalance));
}

#[test]
fn test_test_emergency_withdraw() {
    let mut s = Setup::new(USER);
    s.staking.set_tier(ADMIN, 1, 1000, 150).unwrap();
    s.stake(USER, 2000, LOCK, 1).unwrap();
    let balance_before = s.bank.balance(USER);
    s.emergency_withdraw(USER).unwrap();
    let expected_withdrawal = 2000 - (2000 * 20 / 100);
    assert_eq!(s.bank.balance(USER), balance_before + expected_withdrawal);
    let user_info = s.staking.user_info(USER);
    assert_eq!(user_info.amount, 0);
    assert_eq!(user_info.shares, 0);
}

#[test]
fn test_emergency_withdraw_no_balance() {
    let mut s = Setup::new(USER);
    let result = s.emergency_withdraw(USER);
    assert_eq!(result, Err(StakingError::InsufficientBalance));
}

#[test]
fn test_role_management() {
    let mut s = Setup::new(USER);
    s.staking.grant_role(ADMIN, "MOD".to_string(), MODERATOR).unwrap();
    assert!(s.staking.has_role(&"MOD".to_string(), MODERATOR));
    s.staking.revoke_role(ADMIN, "MOD".to_string(), MODERATOR).unwrap();
    assert!(!s.staking.has_role(&"MOD".to_string(), MODERATOR));
}

#[test]
fn test_role_grant_unauthorized() {
    let mut s = Setup::new(USER);
    let result = s.staking.grant_role(UNAUTHORIZED, "MOD".to_string(), MODERATOR);
    assert_eq!(result, Err(StakingError::Unauthorized));
}

#[test]
fn test_state_migration() {
    let mut s = Setup::new(USER);
    assert_eq!(s.staking.version(), 1);
    s.staking.migrate_state(ADMIN, 2).unwrap();
    assert_eq!(s.staking.version(), 2);
}

#[test]
fn test_state_migration_invalid_version() {
    let mut s = Setup::new(USER);
    let result = s.staking.migrate_state(ADMIN, 1);
    assert_eq!(result, Err(StakingError::NewVersionMustBeGreater));
}

#[test]
fn test_multiple_users_staking() {
    let mut s = Setup::new(USER);
    s.bank.mint(USER2, 10_000_000);
    s.staking.set_tier(ADMIN, 1, 1000, 150).unwrap();
    s.stake(USER, 2000, LOCK, 1).unwrap();
    s.stake(USER2, 3000, LOCK, 1).unwrap();
    assert_eq!(s.bank.balance(CONTRACT), 5000);
    let user1_info = s.staking.user_info(USER);
    let user2_info = s.staking.user_info(USER2);
    assert!(user1_info.shares > 0);
    assert!(user2_info.shares > 0);
}

#[test]
fn test_tier_downgrade_on_unstake() {
    let mut s = Setup::new(USER);
    s.staking.set_tier(ADMIN, 1, 1000, 150).unwrap();
    s.staking.set_tier(ADMIN, 2, 500, 120).unwrap();
    s.stake(USER, 2000, LOCK, 1).unwrap();
    let user_info_before = s.staking.user_info(USER);
    assert_eq!(user_info_before.tier_id, 1);
    s.unstake(USER, 1500).unwrap();
    let user_info_after = s.staking.user_info(USER);
    assert_eq!(user_info_after.tier_id, 2);
}

#[test]
fn test_edge_case_zero_total_shares() {
    let mut s = Setup::new(USER);
    s.staking.set_tier(ADMIN, 1, 1000, 150).unwrap();
    s.stake(USER, 2000, LOCK, 1).unwrap();
    s.unstake(USER, 2000).unwrap();
    s.now += 10;
    s.claim(USER, false).unwrap();
}

#[test]
fn test_test_reentrancy_protection() {
    let mut s = Setup::new(USER);
    s.staking.set_tier(ADMIN, 1, 1000, 150).unwrap();
    s.stake(USER, 2000, LOCK, 1).unwrap();
}

#[test]
fn test_staking_edge_cases() {
    let mut s = Setup::new(USER);
    let result = s.staking.initialize(ADMIN, TOKEN, TOKEN, 1000, 0);
    assert_eq!(result, Err(StakingError::AlreadyInitialized));

    s.staking.set_tier(ADMIN, 1, 1000, 150).unwrap();
    let result = s.staking.set_tier(UNAUTHORIZED, 2, 2000, 200);
    assert_eq!(result, Err(StakingError::Unauthorized));

    let result = s.stake(USER, 20_000_000, 86400, 1);
    assert_eq!(result, Err(StakingError::InsufficientBalance));

    let result = s.stake(USER, 0, 86400, 1);
    assert_eq!(result, Err(StakingError::AmountMustBePositive));

    s.staking.set_tier(ADMIN, 2, 5000, 200).unwrap();
    let result = s.stake(USER, 1000, 86400, 2);
    assert_eq!(result, Err(StakingError::InsufficientAmountForTier));

    s.stake(USER, 2000, 86400, 1).unwrap();
    let result = s.unstake(USER, 3000);
    assert_eq!(result, Err(StakingError::InsufficientBalance));

    let result = s.unstake(USER, 0);
    assert_eq!(result, Err(StakingError::AmountMustBePositive));

    let result = s.unstake(UNAUTHORIZED, 1000);
    assert_eq!(result, Err(StakingError::UserNotFound));

    let result = s.staking.slash(UNAUTHORIZED, USER, 1000, s.now);
    assert_eq!(result, Err(StakingError::Unauthorized));

    let result = s.staking.slash(ADMIN, USER, 3000, s.now);
    assert_eq!(result, Err(StakingError::SlashingAmountExceedsBalance));

    let result = s.emergency_withdraw(UNAUTHORIZED);
    assert_eq!(result, Err(StakingError::InsufficientBalance));

    let result = s.staking.initialize(ADMIN, TOKEN, REWARD_TOKEN, 1000, 0);
    assert_eq!(result, Err(StakingError::AlreadyInitialized));

    let mut compound = StakingContract::new();
    compound.initialize(ADMIN, TOKEN, REWARD_TOKEN, 1000, s.now).unwrap();
    s.bank.mint(USER, 10_000_000);
    let ok = s.bank.balance(USER) >= 2000;
    compound.stake(USER, 2000, 86400, 1, s.now, ok).unwrap();
    s.now += 100;
    let result = compound.claim(USER, true, s.now, true);
    assert_eq!(result, Err(StakingError::RewardTokenDiffers));
}

#[test]
fn staking_reward_stream_is_shared_by_shares() {
    // One staker with 3200 shares over 100 seconds at rate 1000 earns the whole stream.
    let mut s = Setup::new(USER);
    s.staking.set_tier(ADMIN, 1, 1000, 150).unwrap();
    s.stake(USER, 2000, LOCK, 1).unwrap();
    assert_eq!(s.staking.user_info(USER).shares, 3200);
    s.now += 100;
    let paid = s.staking.claim(USER, false, s.now, true).unwrap();
    assert_eq!(paid, 100_000);
    // A second claim at the same time pays nothing.
    assert_eq!(s.staking.claim(USER, false, s.now, true), Ok(0));
}

#[test]
fn staking_cancelled_upgrade_cannot_execute() {
    let mut s = Setup::new(USER);
    let hash = vec![1u8; 32];
    s.staking.schedule_upgrade(hash.clone(), 1000, 0);
    assert!(s.staking.upgrade.can_execute(&hash, 1001));
    assert!(!s.staking.upgrade.can_execute(&hash, 999));
    s.staking.cancel_upgrade();
    assert!(!s.staking.upgrade.can_execute(&hash, 1001));
}

#[test]
fn staking_user_without_record() {
    let mut s = Setup::new(USER);
    // A claim gives such a user a fresh record and pays nothing.
    assert_eq!(s.staking.claim(USER2, false, s.now, false), Ok(0));
    assert_eq!(s.staking.user_info(USER2).amount, 0);
    // A slash finds nothing staked.
    assert_eq!(s.staking.slash(ADMIN, UNAUTHORIZED, 1, s.now), Err(StakingError::SlashingAmountExceedsBalance));
}

#[test]
fn staking_failed_payouts_change_nothing() {
    let mut s = Setup::new(USER);
    s.staking.set_tier(ADMIN, 1, 1000, 150).unwrap();
    s.stake(USER, 2000, LOCK, 1).unwrap();
    s.now += 10;
    // The reward (10 s at rate 1000) exceeds what the contract holds.
    assert_eq!(s.claim(USER, false), Err(StakingError::InsufficientBalance));
    assert_eq!(s.staking.pending_reward(USER, s.now), Some(10_000));
    assert_eq!(s.staking.unstake(USER, 1000, s.now, false), Err(StakingError::InsufficientBalance));
    assert_eq!(s.staking.user_info(USER).amount, 2000);
    assert_eq!(s.staking.unstake_payout_of(USER, 1000, s.now), 800);
}

#[test]
fn staking_downgrade_picks_highest_tier_met() {
    let mut s = Setup::new(USER);
    s.staking.set_tier(ADMIN, 1, 1000, 150).unwrap();
    s.staking.set_tier(ADMIN, 2, 300, 110).unwrap();
    s.staking.set_tier(ADMIN, 3, 600, 130).unwrap();
    s.staking.set_tier(ADMIN, 4, 900, 140).unwrap();
    s.stake(USER, 2000, LOCK, 1).unwrap();
    // 700 left: tiers 2 (300) and 3 (600) are met, tier 4 (900) is not.
    s.unstake(USER, 1300).unwrap();
    assert_eq!(s.staking.user_info(USER).tier_id, 3);
}

#[test]
fn staking_downgrade_to_tier_zero_when_none_met() {
    let mut s = Setup::new(USER);
    s.staking.set_tier(ADMIN, 1, 1000, 150).unwrap();
    s.staking.set_tier(ADMIN, 2, 500, 120).unwrap();
    s.stake(USER, 2000, LOCK, 1).unwrap();
    s.unstake(USER, 1900).unwrap();
    assert_eq!(s.staking.user_info(USER).tier_id, 0);
}
