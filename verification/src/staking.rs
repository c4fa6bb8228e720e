//! The staking contract: users lock a token for a chosen duration and tier, earn a
//! share of a global reward stream in proportion to their shares, and may claim,
//! compound, unstake (with an early-exit penalty) or withdraw in an emergency.
//!
//! Rewards accrue per share: the global `reward_per_token_stored` grows by
//! `elapsed * reward_rate * PRECISION / total_shares`, and a user's pending reward is
//! `shares * (reward_per_token_stored - reward_per_token_paid) / PRECISION`.
use vstd::prelude::*;
use crate::access::{RoleSet, UpgradeTimelock};
use crate::arith::{tdiv, fits_i128, div_i128};
use crate::table::Table;

verus! {

/// Fixed-point scale of `reward_per_token_stored`.
pub const PRECISION: i128 = 1_000_000_000;
/// Each full period of this many seconds of lock adds 10 to the reward multiplier.
pub const BOOST_PERIOD: u32 = 2_592_000;
/// Percentage withheld when a stake leaves before its lock expires, or in an emergency.
pub const PENALTY_PERCENT: i128 = 20;

/// Errors of the staking contract.
#[derive(Debug, Clone, Copy, PartialEq, Eq, Structural)]
pub enum StakingError {
    AlreadyInitialized,
    NotInitialized,
    Unauthorized,
    InvalidToken,
    InsufficientBalance,
    AmountMustBePositive,
    InsufficientAmountForTier,
    RewardTokenDiffers,
    LockPeriodNotExpired,
    ArithmeticOverflow,
    InvalidTier,
    UserNotFound,
    UpgradeTimelockNotExpired,
    UpgradeHashMismatch,
    NoUpgradeScheduled,
    NewVersionMustBeGreater,
    SlashingAmountExceedsBalance,
    CompoundDisabledForDifferentToken,
}

/// Core configuration of the staking system.
#[derive(Debug, Clone, Copy, PartialEq, Eq, Structural)]
pub struct Config {
    pub admin: u64,
    pub staking_token: u64,
    pub reward_token: u64,
    /// Global reward rate per second.
    pub reward_rate: i128,
}

/// A reward tier: the minimum stake it requires and its reward multiplier
/// (100 = 1x, 150 = 1.5x).
#[derive(Debug, Clone, Copy, PartialEq, Eq, Structural)]
pub struct Tier {
    pub min_amount: i128,
    pub reward_multiplier: u32,
}

/// The staking record of one user.
#[derive(Debug, Clone, Copy, PartialEq, Eq, Structural)]
pub struct UserInfo {
    pub amount: i128,
    pub shares: i128,
    pub reward_per_token_paid: i128,
    pub rewards: i128,
    pub lock_start_time: u64,
    pub lock_duration: u64,
    pub tier_id: u32,
}

/// The tier that applies when none is configured under an id.
pub open spec fn default_tier() -> Tier {
    Tier { min_amount: 0, reward_multiplier: 100 }
}

/// The lock-duration boost of the multiplier: 10 for each full boost period.
/// The duration is first narrowed to 32 bits, as the contract does.
pub open spec fn boost(lock_duration: u64) -> int {
    ((lock_duration as u32) / BOOST_PERIOD) as int * 10
}

/// Shares of a stake: amount times multiplier, in hundredths.
pub open spec fn shares_of(amount: int, multiplier: int) -> int {
    tdiv(amount * multiplier, 100)
}

/// The record of a user who has never staked, at reward level `rpt`.
pub open spec fn fresh_user(rpt: int) -> UserInfo {
    UserInfo {
        amount: 0,
        shares: 0,
        reward_per_token_paid: rpt as i128,
        rewards: 0,
        lock_start_time: 0,
        lock_duration: 0,
        tier_id: 0,
    }
}

/// A user's pending reward at reward level `rpt`.
pub open spec fn pending(info: UserInfo, rpt: int) -> int {
    tdiv(info.shares * (rpt - info.reward_per_token_paid), PRECISION as int)
}

/// The record after the user's pending reward at level `rpt` is credited.
pub open spec fn settled(info: UserInfo, rpt: int) -> UserInfo {
    UserInfo {
        rewards: (info.rewards + pending(info, rpt)) as i128,
        reward_per_token_paid: rpt as i128,
        ..info
    }
}

/// Crediting the pending reward stays within machine integers.
pub open spec fn settle_fits(info: UserInfo, rpt: int) -> bool {
    &&& fits_i128(rpt - info.reward_per_token_paid)
    &&& fits_i128(info.shares * (rpt - info.reward_per_token_paid))
    &&& fits_i128(info.rewards + pending(info, rpt))
}

/// Amount withheld from an early or emergency exit of `amount`.
pub open spec fn penalty(amount: int) -> int {
    tdiv(amount * PENALTY_PERCENT, 100)
}

/// The sum of the users' shares.
pub open spec fn sum_shares(s: Seq<(u64, UserInfo)>) -> int
    decreases s.len(),
{
    if s.len() == 0 {
        0
    } else {
        sum_shares(s.drop_last()) + s.last().1.shares
    }
}

proof fn lemma_sum_shares_update(s: Seq<(u64, UserInfo)>, i: int, x: (u64, UserInfo))
    requires
        0 <= i < s.len(),
    ensures
        sum_shares(s.update(i, x)) == sum_shares(s) - s[i].1.shares + x.1.shares,
    decreases s.len(),
{
    let t = s.update(i, x);
    if i == s.len() - 1 {
        assert(t.drop_last() =~= s.drop_last());
    } else {
        lemma_sum_shares_update(s.drop_last(), i, x);
        assert(t.drop_last() =~= s.drop_last().update(i, x));
    }
}

proof fn lemma_sum_shares_push(s: Seq<(u64, UserInfo)>, x: (u64, UserInfo))
    ensures
        sum_shares(s.push(x)) == sum_shares(s) + x.1.shares,
{
    assert(s.push(x).drop_last() =~= s);
}

proof fn lemma_sum_shares_nonneg(s: Seq<(u64, UserInfo)>)
    requires
        forall|i: int| 0 <= i < s.len() ==> #[trigger] s[i].1.shares >= 0,
    ensures
        sum_shares(s) >= 0,
    decreases s.len(),
{
    if s.len() > 0 {
        assert forall|i: int| 0 <= i < s.drop_last().len() implies #[trigger] s.drop_last()[i].1.shares
            >= 0 by {
            assert(s.drop_last()[i] == s[i]);
        }
        lemma_sum_shares_nonneg(s.drop_last());
    }
}

/// Among the tiers whose minimum `amount` meets, the one with the highest minimum
/// (the first such in configuration order on ties).
pub open spec fn best_tier(s: Seq<(u64, Tier)>, amount: int) -> Option<(u64, Tier)>
    decreases s.len(),
{
    if s.len() == 0 {
        None
    } else {
        let rest = best_tier(s.drop_last(), amount);
        let last = s.last();
        if last.1.min_amount <= amount && (rest is None || last.1.min_amount
            > rest.unwrap().1.min_amount) {
            Some(last)
        } else {
            rest
        }
    }
}

proof fn lemma_best_tier_in(s: Seq<(u64, Tier)>, amount: int)
    ensures
        best_tier(s, amount) matches Some(b) ==> exists|i: int|
            0 <= i < s.len() && #[trigger] s[i] == b && b.1.min_amount <= amount,
    decreases s.len(),
{
    if s.len() > 0 {
        lemma_best_tier_in(s.drop_last(), amount);
        if let Some(b) = best_tier(s, amount) {
            if b != s.last() {
                let i = choose|i: int|
                    0 <= i < s.drop_last().len() && #[trigger] s.drop_last()[i] == b
                        && b.1.min_amount <= amount;
                assert(s[i] == b);
            } else {
                assert(s[s.len() - 1] == b);
            }
        }
    }
}

/// `best_tier` finds no tier only when `amount` meets none, and otherwise a tier of the
/// highest minimum among those it meets.
proof fn lemma_best_tier_max(s: Seq<(u64, Tier)>, amount: int)
    ensures
        best_tier(s, amount) is None ==> forall|i: int|
            0 <= i < s.len() ==> #[trigger] s[i].1.min_amount > amount,
        best_tier(s, amount) matches Some(b) ==> forall|i: int|
            0 <= i < s.len() && #[trigger] s[i].1.min_amount <= amount ==> s[i].1.min_amount
                <= b.1.min_amount,
    decreases s.len(),
{
    if s.len() > 0 {
        lemma_best_tier_max(s.drop_last(), amount);
        assert forall|i: int| 0 <= i < s.len() - 1 implies #[trigger] s[i] == s.drop_last()[i] by {}
    }
}

/// The staking contract's state.
pub struct StakingContract {
    pub config: Option<Config>,
    pub tiers: Table<Tier>,
    pub users: Table<UserInfo>,
    pub reward_per_token_stored: i128,
    pub last_update_time: u64,
    pub total_shares: i128,
    pub version: Option<u32>,
    pub roles: RoleSet,
    pub upgrade: UpgradeTimelock,
}

/// The administrator role name.
pub open spec fn admin_role() -> Seq<char> {
    seq!['A', 'D', 'M', 'I', 'N']
}

fn admin_role_name() -> (r: String)
    ensures
        r@ == admin_role(),
{
    let s = "ADMIN".to_string();
    proof {
        reveal_strlit("ADMIN");
    }
    assert(s@ =~= admin_role());
    s
}

impl StakingContract {
    /// The state's invariant: the tables are well formed, tier ids fit 32 bits,
    /// stakes and shares are non-negative, the total of shares is the sum of the
    /// users' shares, and nobody has staked before initialization.
    pub open spec fn wf(self) -> bool {
        &&& self.tiers.wf()
        &&& self.users.wf()
        &&& forall|i: int|
            0 <= i < self.tiers.entries@.len() ==> #[trigger] self.tiers.entries@[i].0
                <= u32::MAX
        &&& forall|i: int|
            0 <= i < self.users.entries@.len() ==> (#[trigger] self.users.entries@[i]).1.amount
                >= 0 && self.users.entries@[i].1.shares >= 0
        &&& self.total_shares == sum_shares(self.users.entries@)
        &&& self.config is None ==> self.users.entries@.len() == 0
    }

    /// The tier configured under `id`, or the default tier.
    pub open spec fn tier_of(self, id: u32) -> Tier {
        if self.tiers.map().dom().contains(id as u64) {
            self.tiers.map()[id as u64]
        } else {
            default_tier()
        }
    }

    /// The user's record, if the user has one.
    pub open spec fn user(self, user: u64) -> Option<UserInfo> {
        if self.users.map().dom().contains(user) {
            Some(self.users.map()[user])
        } else {
            None
        }
    }

    /// Whether `account` holds the administrator role.
    pub open spec fn is_admin(self, account: u64) -> bool {
        self.roles.holds(admin_role(), account)
    }

    /// The global reward level after accruing the stream up to `now`.
    pub open spec fn accrued_rpt(self, now: u64) -> int {
        if now > self.last_update_time && self.total_shares > 0 {
            self.reward_per_token_stored + tdiv(
                (now - self.last_update_time) * self.config.unwrap().reward_rate
                    * PRECISION as int,
                self.total_shares as int,
            )
        } else {
            self.reward_per_token_stored as int
        }
    }

    /// The last update time after accruing up to `now`.
    pub open spec fn accrued_time(self, now: u64) -> u64 {
        if now > self.last_update_time {
            now
        } else {
            self.last_update_time
        }
    }

    /// Accruing up to `now` stays within machine integers.
    pub open spec fn accrue_fits(self, now: u64) -> bool {
        now > self.last_update_time && self.total_shares > 0 ==> {
            &&& fits_i128((now - self.last_update_time) * self.config.unwrap().reward_rate)
            &&& fits_i128(
                (now - self.last_update_time) * self.config.unwrap().reward_rate
                    * PRECISION as int,
            )
            &&& fits_i128(self.accrued_rpt(now))
        }
    }

    /// The user's record once the stream is accrued to `now` and the user's pending
    /// reward credited; a user without a record starts fresh at the new level.
    pub open spec fn settled_user(self, user: u64, now: u64) -> UserInfo {
        match self.user(user) {
            Some(info) => settled(info, self.accrued_rpt(now)),
            None => fresh_user(self.accrued_rpt(now)),
        }
    }

    /// Accruing and crediting `user` stays within machine integers.
    pub open spec fn settle_user_fits(self, user: u64, now: u64) -> bool {
        &&& self.accrue_fits(now)
        &&& (self.user(user) matches Some(info) ==> settle_fits(info, self.accrued_rpt(now)))
    }

    /// The state is unchanged except for what accrual to `now` and crediting `user`
    /// change, and the fields listed by the operation.
    pub open spec fn keeps_config(self, next: Self) -> bool {
        &&& next.config == self.config
        &&& next.tiers.map() == self.tiers.map()
        &&& next.roles.view_set() == self.roles.view_set()
        &&& next.version == self.version
        &&& next.upgrade == self.upgrade
    }

    /// An uninitialized staking contract.
    pub fn new() -> (r: Self)
        ensures
            r.wf(),
            r.config is None,
            r.users.map() == Map::<u64, UserInfo>::empty(),
            r.tiers.map() == Map::<u64, Tier>::empty(),
            r.roles.view_set() == Set::<(Seq<char>, u64)>::empty(),
            r.version is None,
            r.total_shares == 0,
            r.reward_per_token_stored == 0,
            r.last_update_time == 0,
            r.upgrade.scheduled is None,
    {
        StakingContract {
            config: None,
            tiers: Table::new(),
            users: Table::new(),
            reward_per_token_stored: 0,
            last_update_time: 0,
            total_shares: 0,
            version: None,
            roles: RoleSet::new(),
            upgrade: UpgradeTimelock::new(),
        }
    }

    /// Initializes the contract. Fails with `AlreadyInitialized` if it already is.
    /// The addresses must not be the zero address (0).
    pub fn initialize(
        &mut self,
        admin: u64,
        staking_token: u64,
        reward_token: u64,
        reward_rate: i128,
        now: u64,
    ) -> (r: Result<(), StakingError>)
        requires
            old(self).wf(),
            old(self).config is None ==> admin != 0 && staking_token != 0 && reward_token != 0,
        ensures
            final(self).wf(),
            old(self).config is Some ==> r == Err::<(), StakingError>(
                StakingError::AlreadyInitialized,
            ) && *final(self) == *old(self),
            old(self).config is None ==> {
                &&& r is Ok
                &&& final(self).config == Some(
                    Config { admin, staking_token, reward_token, reward_rate },
                )
                &&& final(self).last_update_time == now
                &&& final(self).version == Some(1u32)
                &&& final(self).roles.view_set() == old(self).roles.view_set().insert(
                    (admin_role(), admin),
                )
                &&& final(self).users.map() == old(self).users.map()
                &&& final(self).tiers.map() == old(self).tiers.map()
                &&& final(self).total_shares == old(self).total_shares
                &&& final(self).reward_per_token_stored == old(self).reward_per_token_stored
            },
    {
        if self.config.is_some() {
            return Err(StakingError::AlreadyInitialized);
        }
        self.config = Some(Config { admin, staking_token, reward_token, reward_rate });
        self.last_update_time = now;
        self.version = Some(1);
        self.roles.grant(admin_role_name(), admin);
        Ok(())
    }

    /// Configures tier `tier_id`. Only an administrator may do so.
    pub fn set_tier(&mut self, admin: u64, tier_id: u32, min_amount: i128, reward_multiplier: u32)
        -> (r: Result<(), StakingError>)
        requires
            old(self).wf(),
        ensures
            final(self).wf(),
            !old(self).is_admin(admin) ==> r == Err::<(), StakingError>(
                StakingError::Unauthorized,
            ) && *final(self) == *old(self),
            old(self).is_admin(admin) ==> {
                &&& r is Ok
                &&& final(self).tiers.map() == old(self).tiers.map().insert(
                    tier_id as u64,
                    Tier { min_amount, reward_multiplier },
                )
                &&& final(self).users == old(self).users
                &&& final(self).config == old(self).config
                &&& final(self).roles == old(self).roles
                &&& final(self).total_shares == old(self).total_shares
                &&& final(self).reward_per_token_stored == old(self).reward_per_token_stored
                &&& final(self).last_update_time == old(self).last_update_time
                &&& final(self).version == old(self).version
            },
    {
        if !self.roles.has_role(&admin_role_name(), admin) {
            return Err(StakingError::Unauthorized);
        }
        let ghost o = self.tiers;
        self.tiers.insert(tier_id as u64, Tier { min_amount, reward_multiplier });
        proof {
            assert forall|i: int|
                0 <= i < self.tiers.entries@.len() implies #[trigger] self.tiers.entries@[i].0
                <= u32::MAX by {
                self.tiers.lemma_pos(i);
                let k = self.tiers.entries@[i].0;
                if k != tier_id as u64 {
                    assert(o.map().dom().contains(k));
                    let j = o.pos(k);
                    assert(o.entries@[j].0 == k);
                }
            }
        }
        Ok(())
    }

    /// The tier configured under `id`, or the default tier.
    fn read_tier(&self, id: u32) -> (t: Tier)
        requires
            self.tiers.wf(),
        ensures
            t == self.tier_of(id),
    {
        match self.tiers.find(id as u64) {
            Some(i) => self.tiers.entries[i].1,
            None => Tier { min_amount: 0, reward_multiplier: 100 },
        }
    }

    /// The global reward level accrued to `now`, without changing anything.
    fn accrued_level(&self, now: u64) -> (r: i128)
        requires
            self.config is Some,
            self.accrue_fits(now),
        ensures
            r == self.accrued_rpt(now),
    {
        if now > self.last_update_time && self.total_shares > 0 {
            let rate = match &self.config {
                Some(c) => c.reward_rate,
                None => 0,
            };
            let time_diff = (now - self.last_update_time) as i128;
            let reward = time_diff * rate;
            self.reward_per_token_stored + div_i128(reward * PRECISION, self.total_shares)
        } else {
            self.reward_per_token_stored
        }
    }

    /// Accrues the reward stream up to `now`.
    fn accrue(&mut self, now: u64)
        requires
            old(self).wf(),
            old(self).config is Some,
            old(self).accrue_fits(now),
        ensures
            final(self).wf(),
            final(self).reward_per_token_stored == old(self).accrued_rpt(now),
            final(self).last_update_time == old(self).accrued_time(now),
            final(self).users == old(self).users,
            final(self).tiers == old(self).tiers,
            final(self).config == old(self).config,
            final(self).roles == old(self).roles,
            final(self).total_shares == old(self).total_shares,
            final(self).version == old(self).version,
            final(self).upgrade == old(self).upgrade,
    {
        if now > self.last_update_time {
            if self.total_shares > 0 {
                let rate = match &self.config {
                    Some(c) => c.reward_rate,
                    None => 0,
                };
                let time_diff = (now - self.last_update_time) as i128;
                let reward = time_diff * rate;
                let q = div_i128(reward * PRECISION, self.total_shares);
                self.reward_per_token_stored = self.reward_per_token_stored + q;
            }
            self.last_update_time = now;
        }
    }

    /// Credits the user's pending reward at the current level; users without a
    /// record are left alone.
    fn settle(&mut self, user: u64)
        requires
            old(self).wf(),
            old(self).user(user) matches Some(info) ==> settle_fits(
                info,
                old(self).reward_per_token_stored as int,
            ),
        ensures
            final(self).wf(),
            final(self).users.map() == match old(self).user(user) {
                Some(info) => old(self).users.map().insert(
                    user,
                    settled(info, old(self).reward_per_token_stored as int),
                ),
                None => old(self).users.map(),
            },
            final(self).users.entries@.len() == old(self).users.entries@.len(),
            final(self).reward_per_token_stored == old(self).reward_per_token_stored,
            final(self).last_update_time == old(self).last_update_time,
            final(self).tiers == old(self).tiers,
            final(self).config == old(self).config,
            final(self).roles == old(self).roles,
            final(self).total_shares == old(self).total_shares,
            final(self).version == old(self).version,
            final(self).upgrade == old(self).upgrade,
    {
        match self.users.find(user) {
            None => {},
            Some(i) => {
                let info = self.users.entries[i].1;
                let rpt = self.reward_per_token_stored;
                let delta = rpt - info.reward_per_token_paid;
                let p = div_i128(info.shares * delta, PRECISION);
                let new_info = UserInfo {
                    rewards: info.rewards + p,
                    reward_per_token_paid: rpt,
                    ..info
                };
                let ghost o = self.users.entries@;
                self.users.set_at(i, new_info);
                proof {
                    assert(self.users.entries@ == o.update(i as int, (user, new_info)));
                    lemma_sum_shares_update(o, i as int, (user, new_info));
                    assert forall|j: int|
                        0 <= j < self.users.entries@.len() implies (
                        #[trigger] self.users.entries@[j]).1.amount >= 0
                        && self.users.entries@[j].1.shares >= 0 by {
                        if j != i {
                            assert(self.users.entries@[j] == o[j]);
                        }
                    }
                }
            },
        }
    }

    /// Replaces the record of `user` (inserting it when new) and adjusts the total
    /// of shares by the change of the user's shares.
    fn write_user(&mut self, user: u64, info: UserInfo)
        requires
            old(self).wf(),
            info.amount >= 0,
            info.shares >= 0,
            old(self).config is Some,
            fits_i128(
                old(self).total_shares + info.shares - match old(self).user(user) {
                    Some(o) => o.shares as int,
                    None => 0,
                },
            ),
        ensures
            final(self).wf(),
            final(self).users.map() == old(self).users.map().insert(user, info),
            final(self).total_shares == old(self).total_shares + info.shares - match old(
                self,
            ).user(user) {
                Some(o) => o.shares as int,
                None => 0,
            },
            final(self).reward_per_token_stored == old(self).reward_per_token_stored,
            final(self).last_update_time == old(self).last_update_time,
            final(self).tiers == old(self).tiers,
            final(self).config == old(self).config,
            final(self).roles == old(self).roles,
            final(self).version == old(self).version,
            final(self).upgrade == old(self).upgrade,
    {
        let ghost o = self.users.entries@;
        match self.users.find(user) {
            Some(i) => {
                let prev = self.users.entries[i].1.shares;
                self.users.set_at(i, info);
                self.total_shares = self.total_shares + (info.shares - prev);
                proof {
                    assert(self.users.entries@ == o.update(i as int, (user, info)));
                    lemma_sum_shares_update(o, i as int, (user, info));
                    assert forall|j: int|
                        0 <= j < self.users.entries@.len() implies (
                        #[trigger] self.users.entries@[j]).1.amount >= 0
                        && self.users.entries@[j].1.shares >= 0 by {
                        if j != i {
                            assert(self.users.entries@[j] == o[j]);
                        }
                    }
                }
            },
            None => {
                self.users.push_new(user, info);
                self.total_shares = self.total_shares + info.shares;
                proof {
                    lemma_sum_shares_push(o, (user, info));
                    assert forall|j: int|
                        0 <= j < self.users.entries@.len() implies (
                        #[trigger] self.users.entries@[j]).1.amount >= 0
                        && self.users.entries@[j].1.shares >= 0 by {
                        if j < o.len() {
                            assert(self.users.entries@[j] == o[j]);
                        }
                    }
                }
            },
        }
    }

    /// The tier a stake of `remaining` keeps after shrinking: unchanged while it
    /// still meets the minimum of its tier (or is empty), otherwise the configured
    /// tier with the highest minimum it meets, or tier 0 when it meets none.
    pub open spec fn downgraded(self, tier_id: u32, remaining: int) -> u32 {
        if remaining > 0 && remaining < self.tier_of(tier_id).min_amount {
            match best_tier(self.tiers.entries@, remaining) {
                Some(b) => b.0 as u32,
                None => 0,
            }
        } else {
            tier_id
        }
    }

    /// The record of a stake reduced to `remaining`, after a possible downgrade.
    pub open spec fn reduced(self, base: UserInfo, remaining: int) -> UserInfo {
        let tier_id = self.downgraded(base.tier_id, remaining);
        let multiplier = self.tier_of(tier_id).reward_multiplier + boost(base.lock_duration);
        UserInfo {
            amount: remaining as i128,
            shares: shares_of(remaining, multiplier) as i128,
            tier_id,
            ..base
        }
    }

    /// Reducing a stake to `remaining` stays within machine integers.
    pub open spec fn reduce_fits(self, base: UserInfo, remaining: int) -> bool {
        let tier_id = self.downgraded(base.tier_id, remaining);
        let multiplier = self.tier_of(tier_id).reward_multiplier + boost(base.lock_duration);
        &&& fits_i128(remaining)
        &&& multiplier <= u32::MAX
        &&& fits_i128(remaining * multiplier)
        &&& fits_i128(self.total_shares + shares_of(remaining, multiplier) - base.shares)
    }

    fn best_tier_for(&self, amount: i128) -> (r: Option<(u64, Tier)>)
        ensures
            r == best_tier(self.tiers.entries@, amount as int),
    {
        let mut best: Option<(u64, Tier)> = None;
        let mut i: usize = 0;
        while i < self.tiers.entries.len()
            invariant
                i <= self.tiers.entries@.len(),
                best == best_tier(self.tiers.entries@.take(i as int), amount as int),
            decreases self.tiers.entries@.len() - i,
        {
            let e = self.tiers.entries[i];
            proof {
                let t = self.tiers.entries@.take(i + 1);
                assert(t.drop_last() =~= self.tiers.entries@.take(i as int));
                assert(t.last() == e);
            }
            if e.1.min_amount <= amount {
                match best {
                    None => {
                        best = Some(e);
                    },
                    Some(b) => {
                        if e.1.min_amount > b.1.min_amount {
                            best = Some(e);
                        }
                    },
                }
            }
            i = i + 1;
        }
        assert(self.tiers.entries@.take(i as int) =~= self.tiers.entries@);
        best
    }

    fn downgrade(&self, tier_id: u32, remaining: i128) -> (r: u32)
        requires
            self.wf(),
        ensures
            r == self.downgraded(tier_id, remaining as int),
    {
        let tier = self.read_tier(tier_id);
        if remaining > 0 && remaining < tier.min_amount {
            match self.best_tier_for(remaining) {
                Some(b) => {
                    proof {
                        lemma_best_tier_in(self.tiers.entries@, remaining as int);
                    }
                    b.0 as u32
                },
                None => 0,
            }
        } else {
            tier_id
        }
    }

    fn reduce(&self, base: UserInfo, remaining: i128) -> (r: UserInfo)
        requires
            self.wf(),
            self.reduce_fits(base, remaining as int),
        ensures
            r == self.reduced(base, remaining as int),
    {
        let tier_id = self.downgrade(base.tier_id, remaining);
        let tier = self.read_tier(tier_id);
        let boost_v = ((base.lock_duration as u32) / BOOST_PERIOD) * 10;
        let multiplier = tier.reward_multiplier + boost_v;
        let shares = div_i128(remaining * (multiplier as i128), 100);
        UserInfo { amount: remaining, shares, tier_id, ..base }
    }

    /// The record a stake produces: the credited record (or a fresh one) with the
    /// amount added, the new tier and lock, and shares recomputed from the tier's
    /// multiplier plus the lock boost.
    pub open spec fn staked(self, user: u64, amount: int, lock_duration: u64, tier_id: u32, now: u64)
        -> UserInfo {
        let base = self.settled_user(user, now);
        let new_amount = base.amount + amount;
        let multiplier = self.tier_of(tier_id).reward_multiplier + boost(lock_duration);
        UserInfo {
            amount: new_amount as i128,
            shares: shares_of(new_amount, multiplier) as i128,
            tier_id,
            lock_start_time: now,
            lock_duration,
            ..base
        }
    }

    /// The stake's amount before the tier check.
    pub open spec fn staked_amount(self, user: u64, amount: int) -> int {
        match self.user(user) {
            Some(info) => info.amount + amount,
            None => amount,
        }
    }

    /// Staking stays within machine integers once the tier check passes.
    pub open spec fn stake_tail_fits(self, user: u64, amount: int, lock_duration: u64, tier_id: u32)
        -> bool {
        let new_amount = self.staked_amount(user, amount);
        let multiplier = self.tier_of(tier_id).reward_multiplier + boost(lock_duration);
        let old_shares = match self.user(user) {
            Some(info) => info.shares as int,
            None => 0,
        };
        &&& multiplier <= u32::MAX
        &&& fits_i128(new_amount * multiplier)
        &&& fits_i128(self.total_shares + shares_of(new_amount, multiplier) - old_shares)
    }

    /// Stakes `amount` for `lock_duration` seconds in tier `tier_id`.
    /// `transfer_ok` is the outcome of moving `amount` of the staking token from the
    /// user to the contract. Errors, in this order: a non-positive amount, a failed
    /// transfer, and a resulting stake below the tier's minimum. On error nothing changes.
    pub fn stake(
        &mut self,
        user: u64,
        amount: i128,
        lock_duration: u64,
        tier_id: u32,
        now: u64,
        transfer_ok: bool,
    ) -> (r: Result<(), StakingError>)
        requires
            old(self).wf(),
            amount > 0 ==> old(self).config is Some && old(self).settle_user_fits(user, now),
            amount > 0 && transfer_ok ==> fits_i128(old(self).staked_amount(user, amount as int)),
            amount > 0 && transfer_ok && old(self).staked_amount(user, amount as int) >= old(
                self,
            ).tier_of(tier_id).min_amount ==> old(self).stake_tail_fits(
                user,
                amount as int,
                lock_duration,
                tier_id,
            ),
        ensures
            final(self).wf(),
            amount <= 0 ==> r == Err::<(), StakingError>(StakingError::AmountMustBePositive),
            amount > 0 && !transfer_ok ==> r == Err::<(), StakingError>(
                StakingError::InsufficientBalance,
            ),
            amount > 0 && transfer_ok && old(self).staked_amount(user, amount as int) < old(
                self,
            ).tier_of(tier_id).min_amount ==> r == Err::<(), StakingError>(
                StakingError::InsufficientAmountForTier,
            ),
            amount > 0 && transfer_ok && old(self).staked_amount(user, amount as int) >= old(
                self,
            ).tier_of(tier_id).min_amount ==> r is Ok,
            r is Err ==> *final(self) == *old(self),
            r is Ok ==> {
                let info = old(self).staked(user, amount as int, lock_duration, tier_id, now);
                let before = match old(self).user(user) {
                    Some(o) => o.shares as int,
                    None => 0,
                };
                &&& amount > 0 && transfer_ok
                &&& old(self).staked_amount(user, amount as int) >= old(self).tier_of(
                    tier_id,
                ).min_amount
                &&& final(self).users.map() == old(self).users.map().insert(user, info)
                &&& final(self).total_shares == old(self).total_shares + info.shares - before
                &&& final(self).reward_per_token_stored == old(self).accrued_rpt(now)
                &&& final(self).last_update_time == old(self).accrued_time(now)
                &&& old(self).keeps_config(*final(self))
            },
    {
        if amount <= 0 {
            return Err(StakingError::AmountMustBePositive);
        }
        if !transfer_ok {
            return Err(StakingError::InsufficientBalance);
        }
        let current = match self.users.find(user) {
            Some(i) => self.users.entries[i].1.amount,
            None => 0,
        };
        let new_amount = current + amount;
        let tier = self.read_tier(tier_id);
        if new_amount < tier.min_amount {
            return Err(StakingError::InsufficientAmountForTier);
        }
        let ghost o = *self;
        self.accrue(now);
        let ghost a = *self;
        assert(a.user(user) == o.user(user));
        self.settle(user);
        let ghost b = *self;
        let base = match self.users.find(user) {
            Some(i) => self.users.entries[i].1,
            None => UserInfo {
                amount: 0,
                shares: 0,
                reward_per_token_paid: self.reward_per_token_stored,
                rewards: 0,
                lock_start_time: 0,
                lock_duration: 0,
                tier_id: 0,
            },
        };
        assert(base == o.settled_user(user, now));
        assert(b.tier_of(tier_id) == o.tier_of(tier_id));
        let boost_v = ((lock_duration as u32) / BOOST_PERIOD) * 10;
        let multiplier = tier.reward_multiplier + boost_v;
        let shares = div_i128(new_amount * (multiplier as i128), 100);
        let info = UserInfo {
            amount: new_amount,
            shares,
            tier_id,
            lock_start_time: now,
            lock_duration,
            ..base
        };
        assert(info == o.staked(user, amount as int, lock_duration, tier_id, now));
        assert(b.user(user) matches Some(x) ==> x.shares == base.shares);
        self.write_user(user, info);
        assert(self.users.map() =~= o.users.map().insert(user, info));
        Ok(())
    }

    /// What an unstake of `amount` pays out: the amount, less the penalty when the
    /// lock has not expired at `now`.
    pub open spec fn unstake_payout(info: UserInfo, amount: int, now: u64) -> int {
        if now < info.lock_start_time + info.lock_duration {
            amount - penalty(amount)
        } else {
            amount
        }
    }

    /// Unstaking stays within machine integers once the balance check passes.
    pub open spec fn unstake_tail_fits(self, user: u64, amount: int, now: u64) -> bool {
        let base = self.settled_user(user, now);
        &&& base.lock_start_time + base.lock_duration <= u64::MAX
        &&& fits_i128(amount * PENALTY_PERCENT)
        &&& self.reduce_fits(base, base.amount - amount)
    }

    /// Unstakes `amount`. `transfer_ok` is the outcome of paying the user what the
    /// unstake returns (see `unstake_payout_of`). Errors, in this order: a non-positive
    /// amount, a user without a record, an amount above the stake, and a failed payout.
    /// On success returns what the contract transfers to the user: the amount, less 20%
    /// before the lock expires. A stake that falls below its tier's minimum moves to
    /// the best tier it still meets. On error nothing changes.
    pub fn unstake(&mut self, user: u64, amount: i128, now: u64, transfer_ok: bool) -> (r: Result<
        i128,
        StakingError,
    >)
        requires
            old(self).wf(),
            amount > 0 ==> old(self).config is Some && old(self).settle_user_fits(user, now),
            amount > 0 && old(self).user(user) is Some && old(self).user(user).unwrap().amount >= amount
                ==> old(self).unstake_tail_fits(user, amount as int, now),
        ensures
            final(self).wf(),
            amount <= 0 ==> r == Err::<i128, StakingError>(StakingError::AmountMustBePositive),
            amount > 0 && old(self).user(user) is None ==> r == Err::<i128, StakingError>(
                StakingError::UserNotFound,
            ),
            amount > 0 && old(self).user(user) is Some && old(self).user(user).unwrap().amount < amount ==> r
                == Err::<i128, StakingError>(StakingError::InsufficientBalance),
            amount > 0 && old(self).user(user) is Some && old(self).user(user).unwrap().amount >= amount
                && !transfer_ok ==> r == Err::<i128, StakingError>(StakingError::InsufficientBalance),
            amount > 0 && old(self).user(user) is Some && old(self).user(user).unwrap().amount >= amount
                && transfer_ok ==> r is Ok,
            r is Err ==> *final(self) == *old(self),
            r matches Ok(paid) ==> {
                let base = old(self).settled_user(user, now);
                let info = old(self).reduced(base, base.amount - amount);
                &&& amount > 0 && transfer_ok
                &&& old(self).user(user) is Some && old(self).user(user).unwrap().amount >= amount
                &&& paid == Self::unstake_payout(base, amount as int, now)
                &&& final(self).users.map() == old(self).users.map().insert(user, info)
                &&& final(self).total_shares == old(self).total_shares + info.shares - base.shares
                &&& final(self).reward_per_token_stored == old(self).accrued_rpt(now)
                &&& final(self).last_update_time == old(self).accrued_time(now)
                &&& old(self).keeps_config(*final(self))
            },
    {
        if amount <= 0 {
            return Err(StakingError::AmountMustBePositive);
        }
        let idx = self.users.find(user);
        if idx.is_none() {
            return Err(StakingError::UserNotFound);
        }
        let current = self.users.entries[idx.unwrap()].1.amount;
        if current < amount {
            return Err(StakingError::InsufficientBalance);
        }
        if !transfer_ok {
            return Err(StakingError::InsufficientBalance);
        }
        let ghost o = *self;
        self.accrue(now);
        assert(self.user(user) == o.user(user));
        self.settle(user);
        let i = self.users.find(user).unwrap();
        let base = self.users.entries[i].1;
        assert(base == o.settled_user(user, now));
        let mut paid = amount;
        if now < base.lock_start_time + base.lock_duration {
            paid = amount - div_i128(amount * PENALTY_PERCENT, 100);
        }
        assert(self.tiers == o.tiers);
        let info = self.reduce(base, base.amount - amount);
        self.write_user(user, info);
        assert(self.users.map() =~= o.users.map().insert(user, info));
        Ok(paid)
    }

    /// Slashing stays within machine integers once the balance check passes.
    pub open spec fn slash_tail_fits(self, user: u64, amount: int, now: u64) -> bool {
        let base = self.settled_user(user, now);
        self.reduce_fits(base, base.amount - amount)
    }

    /// The user's staked amount; 0 for a user without a record.
    pub open spec fn stake_of(self, user: u64) -> int {
        match self.user(user) {
            Some(info) => info.amount as int,
            None => 0,
        }
    }

    /// An administrator slashes `amount` from a user's stake; a user without a record
    /// counts as a fresh record with nothing staked. Errors, in this order: a caller
    /// without the administrator role, and an amount above the stake. A stake that
    /// falls below its tier's minimum moves to the best tier it still meets. On error
    /// nothing changes.
    pub fn slash(&mut self, admin: u64, user: u64, amount: i128, now: u64) -> (r: Result<
        (),
        StakingError,
    >)
        requires
            old(self).wf(),
            old(self).is_admin(admin) ==> old(self).config is Some && old(self).settle_user_fits(
                user,
                now,
            ),
            old(self).is_admin(admin) && old(self).stake_of(user) >= amount ==> old(
                self,
            ).slash_tail_fits(user, amount as int, now),
        ensures
            final(self).wf(),
            !old(self).is_admin(admin) ==> r == Err::<(), StakingError>(
                StakingError::Unauthorized,
            ),
            old(self).is_admin(admin) && old(self).stake_of(user) < amount ==> r == Err::<(), StakingError>(
                StakingError::SlashingAmountExceedsBalance,
            ),
            old(self).is_admin(admin) && old(self).stake_of(user) >= amount ==> r is Ok,
            r is Err ==> *final(self) == *old(self),
            r is Ok ==> {
                let base = old(self).settled_user(user, now);
                let info = old(self).reduced(base, base.amount - amount);
                &&& old(self).is_admin(admin)
                &&& old(self).stake_of(user) >= amount
                &&& final(self).users.map() == old(self).users.map().insert(user, info)
                &&& final(self).total_shares == old(self).total_shares + info.shares - base.shares
                &&& final(self).reward_per_token_stored == old(self).accrued_rpt(now)
                &&& final(self).last_update_time == old(self).accrued_time(now)
                &&& old(self).keeps_config(*final(self))
            },
    {
        if !self.roles.has_role(&admin_role_name(), admin) {
            return Err(StakingError::Unauthorized);
        }
        let current = match self.users.find(user) {
            Some(i) => self.users.entries[i].1.amount,
            None => 0,
        };
        if current < amount {
            return Err(StakingError::SlashingAmountExceedsBalance);
        }
        let ghost o = *self;
        self.accrue(now);
        assert(self.user(user) == o.user(user));
        self.settle(user);
        let base = match self.users.find(user) {
            Some(i) => self.users.entries[i].1,
            None => UserInfo {
                amount: 0,
                shares: 0,
                reward_per_token_paid: self.reward_per_token_stored,
                rewards: 0,
                lock_start_time: 0,
                lock_duration: 0,
                tier_id: 0,
            },
        };
        assert(base == o.settled_user(user, now));
        assert(self.tiers == o.tiers);
        let info = self.reduce(base, base.amount - amount);
        self.write_user(user, info);
        assert(self.users.map() =~= o.users.map().insert(user, info));
        Ok(())
    }

    /// The record after a claim: rewards cleared, and, when compounding, the reward
    /// added to the stake with shares recomputed at the user's tier and lock.
    pub open spec fn claimed(self, base: UserInfo, compound: bool) -> UserInfo {
        if base.rewards > 0 {
            if compound {
                let amount = base.amount + base.rewards;
                let multiplier = self.tier_of(base.tier_id).reward_multiplier + boost(
                    base.lock_duration,
                );
                UserInfo {
                    amount: amount as i128,
                    shares: shares_of(amount, multiplier) as i128,
                    rewards: 0,
                    ..base
                }
            } else {
                UserInfo { rewards: 0, ..base }
            }
        } else {
            base
        }
    }

    /// Compounding stays within machine integers.
    pub open spec fn compound_fits(self, base: UserInfo) -> bool {
        let amount = base.amount + base.rewards;
        let multiplier = self.tier_of(base.tier_id).reward_multiplier + boost(base.lock_duration);
        &&& fits_i128(amount)
        &&& multiplier <= u32::MAX
        &&& fits_i128(amount * multiplier)
        &&& fits_i128(self.total_shares + shares_of(amount, multiplier) - base.shares)
    }

    /// Claims the user's accrued reward; a user without a record is given a fresh one.
    /// Without compounding it returns the reward, which the contract transfers to the
    /// user (0 when there is none); `transfer_ok` is the outcome of that transfer (see
    /// `pending_reward`). With compounding the reward is added to the stake and 0 is
    /// returned, which requires the reward token to be the staking token. Errors:
    /// compounding a positive reward with differing tokens, and a failed payout. On
    /// error nothing changes.
    pub fn claim(&mut self, user: u64, compound: bool, now: u64, transfer_ok: bool) -> (r: Result<
        i128,
        StakingError,
    >)
        requires
            old(self).wf(),
            old(self).config is Some,
            old(self).settle_user_fits(user, now),
            compound && old(self).user(user) is Some ==> old(self).compound_fits(
                old(self).settled_user(user, now),
            ),
        ensures
            final(self).wf(),
            compound && old(self).settled_user(user, now).rewards
                > 0 && old(self).config.unwrap().staking_token != old(
                self,
            ).config.unwrap().reward_token ==> r == Err::<i128, StakingError>(
                StakingError::RewardTokenDiffers,
            ),
            !compound && old(self).settled_user(user, now).rewards > 0 && !transfer_ok ==> r == Err::<
                i128,
                StakingError,
            >(StakingError::InsufficientBalance),
            !(compound && old(self).settled_user(user, now).rewards > 0
                && old(self).config.unwrap().staking_token != old(self).config.unwrap().reward_token)
                && !(!compound && old(self).settled_user(user, now).rewards > 0 && !transfer_ok)
                ==> r is Ok,
            r is Err ==> r == Err::<i128, StakingError>(StakingError::RewardTokenDiffers) || r == Err::<
                i128,
                StakingError,
            >(StakingError::InsufficientBalance),
            r is Err ==> *final(self) == *old(self),
            r matches Ok(paid) ==> {
                let base = old(self).settled_user(user, now);
                let info = old(self).claimed(base, compound);
                &&& paid == if base.rewards > 0 && !compound {
                    base.rewards as int
                } else {
                    0
                }
                &&& final(self).users.map() == old(self).users.map().insert(user, info)
                &&& final(self).total_shares == old(self).total_shares + info.shares - base.shares
                &&& final(self).reward_per_token_stored == old(self).accrued_rpt(now)
                &&& final(self).last_update_time == old(self).accrued_time(now)
                &&& old(self).keeps_config(*final(self))
            },
    {
        let idx = self.users.find(user);
        let cfg = self.config.unwrap();
        if (compound && cfg.staking_token != cfg.reward_token) || (!compound && !transfer_ok) {
            match idx {
                Some(j) => {
                    let prev = self.users.entries[j].1;
                    let level = self.accrued_level(now);
                    let owed = prev.rewards + div_i128(
                        prev.shares * (level - prev.reward_per_token_paid),
                        PRECISION,
                    );
                    if owed > 0 {
                        if compound {
                            return Err(StakingError::RewardTokenDiffers);
                        } else {
                            return Err(StakingError::InsufficientBalance);
                        }
                    }
                },
                None => {},
            }
        }
        let ghost o = *self;
        self.accrue(now);
        assert(self.user(user) == o.user(user));
        self.settle(user);
        let base = match self.users.find(user) {
            Some(i) => self.users.entries[i].1,
            None => UserInfo {
                amount: 0,
                shares: 0,
                reward_per_token_paid: self.reward_per_token_stored,
                rewards: 0,
                lock_start_time: 0,
                lock_duration: 0,
                tier_id: 0,
            },
        };
        assert(base == o.settled_user(user, now));
        let reward = base.rewards;
        let mut paid: i128 = 0;
        let mut info = base;
        if reward > 0 {
            if compound {
                let tier = self.read_tier(base.tier_id);
                let boost_v = ((base.lock_duration as u32) / BOOST_PERIOD) * 10;
                let multiplier = tier.reward_multiplier + boost_v;
                let amount = base.amount + reward;
                let shares = div_i128(amount * (multiplier as i128), 100);
                info = UserInfo { amount, shares, rewards: 0, ..base };
            } else {
                info = UserInfo { rewards: 0, ..base };
                paid = reward;
            }
        }
        assert(info == o.claimed(base, compound));
        self.write_user(user, info);
        assert(self.users.map() =~= o.users.map().insert(user, info));
        Ok(paid)
    }

    /// The zeroed record an emergency withdrawal leaves behind.
    pub open spec fn emptied() -> UserInfo {
        UserInfo {
            amount: 0,
            shares: 0,
            reward_per_token_paid: 0,
            rewards: 0,
            lock_start_time: 0,
            lock_duration: 0,
            tier_id: 0,
        }
    }

    /// Withdraws the whole stake at once, forfeiting pending rewards and 20% of the
    /// stake. Returns what the contract must transfer to the user. Fails with
    /// `InsufficientBalance` when the user has nothing staked; then nothing changes.
    pub fn emergency_withdraw(&mut self, user: u64) -> (r: Result<i128, StakingError>)
        requires
            old(self).wf(),
            old(self).user(user) matches Some(info) ==> fits_i128(info.amount * PENALTY_PERCENT),
        ensures
            final(self).wf(),
            (match old(self).user(user) {
                Some(info) => info.amount == 0,
                None => true,
            }) <==> r == Err::<i128, StakingError>(StakingError::InsufficientBalance),
            r is Err ==> r == Err::<i128, StakingError>(StakingError::InsufficientBalance),
            r is Err ==> *final(self) == *old(self),
            r matches Ok(paid) ==> {
                let info = old(self).user(user).unwrap();
                &&& paid == info.amount - penalty(info.amount as int)
                &&& final(self).users.map() == old(self).users.map().insert(user, Self::emptied())
                &&& final(self).total_shares == old(self).total_shares - info.shares
                &&& final(self).reward_per_token_stored == old(self).reward_per_token_stored
                &&& final(self).last_update_time == old(self).last_update_time
                &&& old(self).keeps_config(*final(self))
            },
    {
        let idx = self.users.find(user);
        if idx.is_none() {
            return Err(StakingError::InsufficientBalance);
        }
        let info = self.users.entries[idx.unwrap()].1;
        if info.amount == 0 {
            return Err(StakingError::InsufficientBalance);
        }
        let paid = info.amount - div_i128(info.amount * PENALTY_PERCENT, 100);
        let empty = UserInfo {
            amount: 0,
            shares: 0,
            reward_per_token_paid: 0,
            rewards: 0,
            lock_start_time: 0,
            lock_duration: 0,
            tier_id: 0,
        };
        proof {
            let j = idx.unwrap() as int;
            lemma_sum_shares_update(self.users.entries@, j, (user, empty));
            lemma_sum_shares_nonneg(self.users.entries@.update(j, (user, empty)));
            assert forall|k: int|
                0 <= k < self.users.entries@.update(j, (user, empty)).len() implies #[trigger] self.users.entries@.update(
                j,
                (user, empty),
            )[k].1.shares >= 0 by {
                if k != j {
                    assert(self.users.entries@.update(j, (user, empty))[k] == self.users.entries@[k]);
                }
            }
        }
        self.write_user(user, empty);
        Ok(paid)
    }

    /// The reward a claim by `user` at `now` would settle: what a claim without
    /// compounding pays out. None when the settlement would leave the machine
    /// integers (see `settle_user_fits`).
    pub fn pending_reward(&self, user: u64, now: u64) -> (r: Option<i128>)
        requires
            self.wf(),
            self.config is Some,
        ensures
            r is Some <==> self.settle_user_fits(user, now),
            r matches Some(v) ==> v == self.settled_user(user, now).rewards,
    {
        match self.checked_settled_user(user, now) {
            Some(b) => Some(b.rewards),
            None => None,
        }
    }

    /// What an unstake of `amount` by `user` at `now` would pay out (see
    /// `unstake_payout`), for an unstake that passes its checks.
    pub fn unstake_payout_of(&self, user: u64, amount: i128, now: u64) -> (r: i128)
        requires
            self.wf(),
            self.config is Some,
            self.settle_user_fits(user, now),
            self.unstake_tail_fits(user, amount as int, now),
        ensures
            r == Self::unstake_payout(self.settled_user(user, now), amount as int, now),
    {
        let base = match self.checked_settled_user(user, now) {
            Some(b) => b,
            None => {
                return 0;
            },
        };
        if now < base.lock_start_time + base.lock_duration {
            amount - div_i128(amount * PENALTY_PERCENT, 100)
        } else {
            amount
        }
    }

    /// The logic version: 1 unless migrated.
    pub open spec fn version_of(self) -> u32 {
        match self.version {
            Some(v) => v,
            None => 1,
        }
    }

    /// The logic version: 1 unless migrated.
    pub fn version(&self) -> (r: u32)
        ensures
            r == self.version_of(),
    {
        match self.version {
            Some(v) => v,
            None => 1,
        }
    }

    /// Records a migration to `new_version`, which must exceed the current version.
    /// Errors: a caller without the administrator role, then a version not above the
    /// current one. On error nothing changes.
    pub fn migrate_state(&mut self, admin: u64, new_version: u32) -> (r: Result<(), StakingError>)
        requires
            old(self).wf(),
        ensures
            final(self).wf(),
            !old(self).is_admin(admin) ==> r == Err::<(), StakingError>(
                StakingError::Unauthorized,
            ),
            old(self).is_admin(admin) && new_version <= old(self).version_of() ==> r == Err::<
                (),
                StakingError,
            >(StakingError::NewVersionMustBeGreater),
            old(self).is_admin(admin) && new_version > old(self).version_of() ==> r is Ok,
            r is Err ==> *final(self) == *old(self),
            r is Ok ==> old(self).is_admin(admin) && new_version > old(self).version_of()
                && *final(self) == (StakingContract { version: Some(new_version), ..*old(self) }),
    {
        if !self.roles.has_role(&admin_role_name(), admin) {
            return Err(StakingError::Unauthorized);
        }
        if new_version <= self.version() {
            return Err(StakingError::NewVersionMustBeGreater);
        }
        self.version = Some(new_version);
        Ok(())
    }

    /// An administrator grants `role` to `account`.
    pub fn grant_role(&mut self, admin: u64, role: String, account: u64) -> (r: Result<
        (),
        StakingError,
    >)
        requires
            old(self).wf(),
        ensures
            final(self).wf(),
            !old(self).is_admin(admin) <==> r == Err::<(), StakingError>(
                StakingError::Unauthorized,
            ),
            r is Ok <==> old(self).is_admin(admin),
            r is Err ==> *final(self) == *old(self),
            r is Ok ==> final(self).roles.view_set() == old(self).roles.view_set().insert(
                (role@, account),
            ) && final(self).users == old(self).users && final(self).tiers == old(self).tiers
                && final(self).config == old(self).config && final(self).total_shares == old(
                self,
            ).total_shares,
    {
        if !self.roles.has_role(&admin_role_name(), admin) {
            return Err(StakingError::Unauthorized);
        }
        self.roles.grant(role, account);
        Ok(())
    }

    /// An administrator revokes `role` from `account`.
    pub fn revoke_role(&mut self, admin: u64, role: String, account: u64) -> (r: Result<
        (),
        StakingError,
    >)
        requires
            old(self).wf(),
        ensures
            final(self).wf(),
            !old(self).is_admin(admin) <==> r == Err::<(), StakingError>(
                StakingError::Unauthorized,
            ),
            r is Ok <==> old(self).is_admin(admin),
            r is Err ==> *final(self) == *old(self),
            r is Ok ==> final(self).roles.view_set() == old(self).roles.view_set().remove(
                (role@, account),
            ) && final(self).users == old(self).users && final(self).tiers == old(self).tiers
                && final(self).config == old(self).config && final(self).total_shares == old(
                self,
            ).total_shares,
    {
        if !self.roles.has_role(&admin_role_name(), admin) {
            return Err(StakingError::Unauthorized);
        }
        self.roles.revoke(&role, account);
        Ok(())
    }

    /// Whether `account` holds `role`.
    pub fn has_role(&self, role: &String, account: u64) -> (r: bool)
        ensures
            r == self.roles.holds(role@, account),
    {
        self.roles.has_role(role, account)
    }

    /// The record of `user`, or a zeroed record when the user has none.
    pub fn user_info(&self, user: u64) -> (r: UserInfo)
        requires
            self.wf(),
        ensures
            r == match self.user(user) {
                Some(info) => info,
                None => Self::emptied(),
            },
    {
        match self.users.find(user) {
            Some(i) => self.users.entries[i].1,
            None => UserInfo {
                amount: 0,
                shares: 0,
                reward_per_token_paid: 0,
                rewards: 0,
                lock_start_time: 0,
                lock_duration: 0,
                tier_id: 0,
            },
        }
    }

    /// Schedules a code upgrade behind a timelock; the contract must have an
    /// administrator and `unlock_time` must lie in the future.
    pub fn schedule_upgrade(&mut self, new_wasm_hash: Vec<u8>, unlock_time: u64, now: u64)
        requires
            old(self).wf(),
            old(self).config is Some,
            now < unlock_time,
        ensures
            final(self).wf(),
            final(self).upgrade.is_scheduled(new_wasm_hash@, unlock_time),
            final(self).users == old(self).users,
            final(self).config == old(self).config,
    {
        self.upgrade.schedule(new_wasm_hash, unlock_time, now);
    }

    /// Cancels the scheduled upgrade.
    pub fn cancel_upgrade(&mut self)
        requires
            old(self).wf(),
        ensures
            final(self).wf(),
            final(self).upgrade.scheduled is None,
            final(self).users == old(self).users,
            final(self).config == old(self).config,
    {
        self.upgrade.cancel();
    }

    /// Executes the scheduled upgrade to `new_wasm_hash` once its timelock expired; the
    /// contract must have an administrator.
    pub fn execute_upgrade(&mut self, new_wasm_hash: &Vec<u8>, now: u64)
        requires
            old(self).wf(),
            old(self).config is Some,
            old(self).upgrade.ready(new_wasm_hash@, now),
        ensures
            final(self).wf(),
            final(self).upgrade.scheduled is None,
            final(self).users == old(self).users,
            final(self).config == old(self).config,
    {
        self.upgrade.execute(new_wasm_hash, now);
    }
}


/// A user's shares are part of the total: between 0 and the total of shares.
proof fn lemma_user_shares_bounded(c: StakingContract, user: u64)
    requires
        c.wf(),
        c.user(user) is Some,
    ensures
        0 <= c.user(user).unwrap().shares <= c.total_shares,
{
    let i = c.users.pos(user);
    c.users.lemma_pos(i);
    let s = c.users.entries@;
    let z = (user, UserInfo { shares: 0, ..s[i].1 });
    lemma_sum_shares_update(s, i, z);
    assert forall|k: int| 0 <= k < s.update(i, z).len() implies #[trigger] s.update(i, z)[k].1.shares >= 0 by {
        if k != i {
            assert(s.update(i, z)[k] == s[k]);
        }
    }
    lemma_sum_shares_nonneg(s.update(i, z));
    assert(s[i].1.shares >= 0);
}

impl StakingContract {
    /// The reward level accrued to `now`, when accruing stays within machine integers.
    pub fn checked_accrual(&self, now: u64) -> (r: Option<i128>)
        requires
            self.config is Some,
        ensures
            r is Some <==> self.accrue_fits(now),
            r matches Some(v) ==> v == self.accrued_rpt(now),
    {
        if now > self.last_update_time && self.total_shares > 0 {
            let rate = match &self.config {
                Some(c) => c.reward_rate,
                None => 0,
            };
            let diff = (now - self.last_update_time) as i128;
            let reward = match diff.checked_mul(rate) {
                Some(x) => x,
                None => {
                    return None;
                },
            };
            let scaled = match reward.checked_mul(PRECISION) {
                Some(x) => x,
                None => {
                    return None;
                },
            };
            let q = div_i128(scaled, self.total_shares);
            self.reward_per_token_stored.checked_add(q)
        } else {
            Some(self.reward_per_token_stored)
        }
    }

    /// A record credited at level `rpt`, when crediting stays within machine integers.
    fn checked_settle(info: UserInfo, rpt: i128) -> (r: Option<UserInfo>)
        ensures
            r is Some <==> settle_fits(info, rpt as int),
            r matches Some(v) ==> v == settled(info, rpt as int),
    {
        let d = match rpt.checked_sub(info.reward_per_token_paid) {
            Some(x) => x,
            None => {
                return None;
            },
        };
        let m = match info.shares.checked_mul(d) {
            Some(x) => x,
            None => {
                return None;
            },
        };
        let p = div_i128(m, PRECISION);
        match info.rewards.checked_add(p) {
            Some(rw) => Some(UserInfo { rewards: rw, reward_per_token_paid: rpt, ..info }),
            None => None,
        }
    }

    /// The user's record accrued and credited at `now` (see `settled_user`), when
    /// that stays within machine integers (see `settle_user_fits`).
    pub fn checked_settled_user(&self, user: u64, now: u64) -> (r: Option<UserInfo>)
        requires
            self.wf(),
            self.config is Some,
        ensures
            r is Some <==> self.settle_user_fits(user, now),
            r matches Some(v) ==> v == self.settled_user(user, now),
    {
        let rpt = match self.checked_accrual(now) {
            Some(v) => v,
            None => {
                return None;
            },
        };
        match self.users.find(user) {
            Some(i) => Self::checked_settle(self.users.entries[i].1, rpt),
            None => Some(
                UserInfo {
                    amount: 0,
                    shares: 0,
                    reward_per_token_paid: rpt,
                    rewards: 0,
                    lock_start_time: 0,
                    lock_duration: 0,
                    tier_id: 0,
                },
            ),
        }
    }

    /// Whether replacing `old_shares` of the total by the shares of `amount` at
    /// `multiplier` stays within machine integers.
    fn checked_reshare(&self, amount: i128, multiplier: u64, old_shares: i128) -> (r: bool)
        requires
            0 <= old_shares <= self.total_shares,
        ensures
            r == (multiplier <= u32::MAX && fits_i128(amount * multiplier) && fits_i128(
                self.total_shares + shares_of(amount as int, multiplier as int) - old_shares,
            )),
    {
        if multiplier > u32::MAX as u64 {
            return false;
        }
        let prod = match amount.checked_mul(multiplier as i128) {
            Some(v) => v,
            None => {
                return false;
            },
        };
        let shares = div_i128(prod, 100);
        let rest = self.total_shares - old_shares;
        rest.checked_add(shares).is_some()
    }

    /// Whether a stake may be reduced to its amount less `amount` (see `reduce_fits`).
    fn checked_reduce(&self, base: UserInfo, amount: i128) -> (r: bool)
        requires
            self.wf(),
            0 <= base.shares <= self.total_shares,
        ensures
            r == self.reduce_fits(base, base.amount - amount),
    {
        let remaining = match base.amount.checked_sub(amount) {
            Some(v) => v,
            None => {
                return false;
            },
        };
        let tier_id = self.downgrade(base.tier_id, remaining);
        let tier = self.read_tier(tier_id);
        let boost_v: u64 = (((base.lock_duration as u32) / BOOST_PERIOD) as u64) * 10;
        let multiplier: u64 = tier.reward_multiplier as u64 + boost_v;
        self.checked_reshare(remaining, multiplier, base.shares)
    }

    /// Whether `stake` may be called with these arguments: its arithmetic then stays
    /// within machine integers (its `requires`).
    pub fn can_stake(
        &self,
        user: u64,
        amount: i128,
        lock_duration: u64,
        tier_id: u32,
        now: u64,
        transfer_ok: bool,
    ) -> (r: bool)
        requires
            self.wf(),
        ensures
            r == ((amount > 0 ==> self.config is Some && self.settle_user_fits(user, now)) && (amount
                > 0 && transfer_ok ==> fits_i128(self.staked_amount(user, amount as int))) && (amount
                > 0 && transfer_ok && self.staked_amount(user, amount as int) >= self.tier_of(
                tier_id,
            ).min_amount ==> self.stake_tail_fits(user, amount as int, lock_duration, tier_id))),
    {
        if amount <= 0 {
            return true;
        }
        if self.config.is_none() {
            return false;
        }
        if self.checked_settled_user(user, now).is_none() {
            return false;
        }
        if !transfer_ok {
            return true;
        }
        let (current, old_shares) = match self.users.find(user) {
            Some(i) => (self.users.entries[i].1.amount, self.users.entries[i].1.shares),
            None => (0, 0),
        };
        proof {
            if self.user(user) is Some {
                lemma_user_shares_bounded(*self, user);
            }
            lemma_sum_shares_nonneg(self.users.entries@);
        }
        let new_amount = match current.checked_add(amount) {
            Some(v) => v,
            None => {
                return false;
            },
        };
        let tier = self.read_tier(tier_id);
        if new_amount < tier.min_amount {
            return true;
        }
        let boost_v: u64 = (((lock_duration as u32) / BOOST_PERIOD) as u64) * 10;
        let multiplier: u64 = tier.reward_multiplier as u64 + boost_v;
        self.checked_reshare(new_amount, multiplier, old_shares)
    }

    /// Whether `unstake` may be called with these arguments (its `requires`).
    pub fn can_unstake(&self, user: u64, amount: i128, now: u64) -> (r: bool)
        requires
            self.wf(),
        ensures
            r == ((amount > 0 ==> self.config is Some && self.settle_user_fits(user, now)) && (amount
                > 0 && self.user(user) is Some && self.user(user).unwrap().amount >= amount
                ==> self.unstake_tail_fits(user, amount as int, now))),
    {
        if amount <= 0 {
            return true;
        }
        if self.config.is_none() {
            return false;
        }
        let base = match self.checked_settled_user(user, now) {
            Some(b) => b,
            None => {
                return false;
            },
        };
        let stored = match self.users.find(user) {
            Some(i) => self.users.entries[i].1,
            None => {
                return true;
            },
        };
        if stored.amount < amount {
            return true;
        }
        proof {
            lemma_user_shares_bounded(*self, user);
        }
        if base.lock_start_time as u128 + base.lock_duration as u128 > u64::MAX as u128 {
            return false;
        }
        if amount.checked_mul(PENALTY_PERCENT).is_none() {
            return false;
        }
        self.checked_reduce(base, amount)
    }

    /// Whether `slash` may be called with these arguments (its `requires`).
    pub fn can_slash(&self, admin: u64, user: u64, amount: i128, now: u64) -> (r: bool)
        requires
            self.wf(),
        ensures
            r == ((self.is_admin(admin) ==> self.config is Some && self.settle_user_fits(user, now))
                && (self.is_admin(admin) && self.stake_of(user) >= amount ==> self.slash_tail_fits(
                user,
                amount as int,
                now,
            ))),
    {
        if !self.roles.has_role(&admin_role_name(), admin) {
            return true;
        }
        if self.config.is_none() {
            return false;
        }
        let base = match self.checked_settled_user(user, now) {
            Some(b) => b,
            None => {
                return false;
            },
        };
        let current = match self.users.find(user) {
            Some(i) => self.users.entries[i].1.amount,
            None => 0,
        };
        if current < amount {
            return true;
        }
        proof {
            if self.user(user) is Some {
                lemma_user_shares_bounded(*self, user);
            } else {
                lemma_sum_shares_nonneg(self.users.entries@);
            }
        }
        self.checked_reduce(base, amount)
    }

    /// Whether `claim` may be called with these arguments (its `requires`).
    pub fn can_claim(&self, user: u64, compound: bool, now: u64) -> (r: bool)
        requires
            self.wf(),
        ensures
            r == (self.config is Some && self.settle_user_fits(user, now) && (compound && self.user(
                user,
            ) is Some ==> self.compound_fits(self.settled_user(user, now)))),
    {
        if self.config.is_none() {
            return false;
        }
        let base = match self.checked_settled_user(user, now) {
            Some(b) => b,
            None => {
                return false;
            },
        };
        if !compound || self.users.find(user).is_none() {
            return true;
        }
        proof {
            lemma_user_shares_bounded(*self, user);
        }
        let amount = match base.amount.checked_add(base.rewards) {
            Some(v) => v,
            None => {
                return false;
            },
        };
        let tier = self.read_tier(base.tier_id);
        let boost_v: u64 = (((base.lock_duration as u32) / BOOST_PERIOD) as u64) * 10;
        let multiplier: u64 = tier.reward_multiplier as u64 + boost_v;
        self.checked_reshare(amount, multiplier, base.shares)
    }

    /// Whether `emergency_withdraw` may be called for `user` (its `requires`).
    pub fn can_emergency_withdraw(&self, user: u64) -> (r: bool)
        requires
            self.wf(),
        ensures
            r == (self.user(user) matches Some(info) ==> fits_i128(info.amount * PENALTY_PERCENT)),
    {
        match self.users.find(user) {
            Some(i) => self.users.entries[i].1.amount.checked_mul(PENALTY_PERCENT).is_some(),
            None => true,
        }
    }
}


/// A stake that shrinks below its tier's minimum moves to a configured tier whose
/// minimum it meets, and no configured tier that it meets has a higher minimum; when it
/// meets no configured tier, it moves to tier 0.
pub proof fn law_downgrade_to_best_tier(c: StakingContract, tier_id: u32, remaining: int)
    requires
        c.wf(),
        0 < remaining < c.tier_of(tier_id).min_amount,
    ensures
        (forall|k: u64| #[trigger] c.tiers.map().dom().contains(k) ==> c.tiers.map()[k].min_amount
            > remaining) ==> c.downgraded(tier_id, remaining) == 0,
        !(forall|k: u64| #[trigger] c.tiers.map().dom().contains(k) ==> c.tiers.map()[k].min_amount
            > remaining) ==> exists|k: u64|
            #![trigger c.tiers.map()[k]]
            {
                &&& c.tiers.map().dom().contains(k)
                &&& c.downgraded(tier_id, remaining) as u64 == k
                &&& c.tiers.map()[k].min_amount <= remaining
                &&& forall|k2: u64|
                    #![trigger c.tiers.map()[k2]]
                    c.tiers.map().dom().contains(k2) && c.tiers.map()[k2].min_amount <= remaining
                        ==> c.tiers.map()[k2].min_amount <= c.tiers.map()[k].min_amount
            },
{
    let s = c.tiers.entries@;
    let m = c.tiers.map();
    lemma_best_tier_max(s, remaining);
    lemma_best_tier_in(s, remaining);
    assert forall|k: u64| #[trigger] m.dom().contains(k) implies exists|i: int|
        0 <= i < s.len() && #[trigger] s[i].0 == k && s[i].1 == m[k] by {
        let i = c.tiers.pos(k);
        c.tiers.lemma_pos(i);
    }
    match best_tier(s, remaining) {
        Some(b) => {
            let i = choose|i: int| 0 <= i < s.len() && #[trigger] s[i] == b && b.1.min_amount
                <= remaining;
            c.tiers.lemma_pos(i);
            assert(b.0 <= u32::MAX);
            assert(m.dom().contains(b.0) && m[b.0] == b.1);
            assert forall|k2: u64|
                #![trigger m[k2]]
                m.dom().contains(k2) && m[k2].min_amount <= remaining implies m[k2].min_amount
                <= m[b.0].min_amount by {
                let j = choose|j: int| 0 <= j < s.len() && #[trigger] s[j].0 == k2 && s[j].1 == m[k2];
                assert(s[j].1.min_amount <= remaining);
            }
            assert(!(forall|k: u64| #[trigger] m.dom().contains(k) ==> m[k].min_amount > remaining));
        },
        None => {
            assert forall|k: u64| #[trigger] m.dom().contains(k) implies m[k].min_amount
                > remaining by {
                let j = choose|j: int| 0 <= j < s.len() && #[trigger] s[j].0 == k && s[j].1 == m[k];
                assert(s[j].1.min_amount > remaining);
            }
        },
    }
}

/// The shares a stake record is owed: its amount times the multiplier of its tier plus
/// ten points for each full 30 days (2 592 000 s) of its lock, in hundredths,
/// truncated toward zero.
pub open spec fn owed_shares(c: StakingContract, info: UserInfo) -> int {
    let lock_boost = (info.lock_duration as u32) as int / 2_592_000 * 10;
    tdiv(info.amount * (c.tier_of(info.tier_id).reward_multiplier + lock_boost), 100)
}

/// Dividing by 100 keeps an `i128` value within `i128`.
proof fn lemma_tdiv_100_fits(x: int)
    requires
        fits_i128(x),
    ensures
        fits_i128(tdiv(x, 100)),
{
}

/// Unstaking and slashing keep the share formula: the record left with `remaining`
/// holds exactly the shares its amount, its (possibly lowered) tier and its unchanged
/// lock are owed, so the lock boost survives a partial withdrawal.
pub proof fn law_reduce_share_formula(c: StakingContract, base: UserInfo, remaining: int)
    requires
        0 <= remaining,
        fits_i128(remaining),
        fits_i128(
            remaining * (c.tier_of(c.reduced(base, remaining).tier_id).reward_multiplier
                + (base.lock_duration as u32) as int / 2_592_000 * 10),
        ),
    ensures
        c.reduced(base, remaining).amount == remaining,
        c.reduced(base, remaining).lock_duration == base.lock_duration,
        c.reduced(base, remaining).shares == owed_shares(c, c.reduced(base, remaining)),
{
    let t = c.reduced(base, remaining).tier_id;
    let m = c.tier_of(t).reward_multiplier + (base.lock_duration as u32) as int / 2_592_000 * 10;
    assert(boost(base.lock_duration) == (base.lock_duration as u32) as int / 2_592_000 * 10);
    lemma_tdiv_100_fits(remaining * m);
}

/// Staking sets the share formula: the new record holds the previous stake plus
/// `amount`, in tier `tier_id` with lock `lock_duration`, and exactly the shares these
/// are owed.
pub proof fn law_stake_share_formula(
    c: StakingContract,
    user: u64,
    amount: int,
    lock_duration: u64,
    tier_id: u32,
    now: u64,
)
    requires
        fits_i128(c.stake_of(user) + amount),
        fits_i128(
            (c.stake_of(user) + amount) * (c.tier_of(tier_id).reward_multiplier
                + (lock_duration as u32) as int / 2_592_000 * 10),
        ),
    ensures
        c.staked(user, amount, lock_duration, tier_id, now).amount == c.stake_of(user) + amount,
        c.staked(user, amount, lock_duration, tier_id, now).tier_id == tier_id,
        c.staked(user, amount, lock_duration, tier_id, now).lock_duration == lock_duration,
        c.staked(user, amount, lock_duration, tier_id, now).shares == owed_shares(
            c,
            c.staked(user, amount, lock_duration, tier_id, now),
        ),
{
    let m = c.tier_of(tier_id).reward_multiplier + (lock_duration as u32) as int / 2_592_000 * 10;
    assert(boost(lock_duration) == (lock_duration as u32) as int / 2_592_000 * 10);
    assert(c.settled_user(user, now).amount == c.stake_of(user));
    lemma_tdiv_100_fits((c.stake_of(user) + amount) * m);
}

/// Compounding a positive reward keeps the share formula: the reward joins the stake
/// and the record holds exactly the shares the new amount, its tier and its lock are
/// owed.
pub proof fn law_compound_share_formula(c: StakingContract, base: UserInfo)
    requires
        base.rewards > 0,
        fits_i128(base.amount + base.rewards),
        fits_i128(
            (base.amount + base.rewards) * (c.tier_of(base.tier_id).reward_multiplier
                + (base.lock_duration as u32) as int / 2_592_000 * 10),
        ),
    ensures
        c.claimed(base, true).amount == base.amount + base.rewards,
        c.claimed(base, true).rewards == 0,
        c.claimed(base, true).shares == owed_shares(c, c.claimed(base, true)),
{
    let m = c.tier_of(base.tier_id).reward_multiplier + (base.lock_duration as u32) as int
        / 2_592_000 * 10;
    assert(boost(base.lock_duration) == (base.lock_duration as u32) as int / 2_592_000 * 10);
    lemma_tdiv_100_fits((base.amount + base.rewards) * m);
}

} // verus!
