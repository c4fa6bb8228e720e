//! Escrow: its statuses and errors, the proxy in front of the escrow services
//! (escrow records, disputes, revenue splits, referrals), and the upgrade manager with
//! keyed timelocks and versioned migrations.
use vstd::prelude::*;
use crate::crypto::{sha256, sha256_digest, le_bytes, push_le};
use crate::bytes::copy_bytes;
use crate::table::{Table, ByteTable, StrTable};
use crate::arith::{tdiv, fits_i128, div_i128};
use crate::access::{str_eq, bytes_eq};

verus! {

/// The status of an escrow.
#[derive(Debug, Clone, Copy, PartialEq, Eq, Structural)]
pub enum EscrowStatus {
    Pending,
    Locked,
    Released,
    Refunded,
    Disputed,
    Cancelled,
}

/// Errors of the escrow contracts.
#[derive(Debug, Clone, Copy, PartialEq, Eq, Structural)]
pub enum EscrowError {
    AlreadyInitialized,
    NotInitialized,
    Unauthorized,
    InsufficientBalance,
    InvalidAmount,
    InvalidToken,
    EscrowNotFound,
    InvalidStatus,
    DisputeActive,
    NoDispute,
    DisputeTimeout,
    InvalidPercentage,
    InvalidMilestone,
    MilestoneAlreadyReleased,
    InvalidTime,
    ContractPaused,
    TransferFailed,
    InvalidAddress,
    AmountTooLow,
    AmountTooHigh,
    ReferralNotFound,
    DuplicateReferral,
    EmergencyWithdrawalNotAvailable,
    ArithmeticError,
}

/// The numeric code of an escrow error: 600 for the first variant, one more for each
/// next one.
pub open spec fn escrow_error_code(e: EscrowError) -> u32 {
    match e {
        EscrowError::AlreadyInitialized => 600,
        EscrowError::NotInitialized => 601,
        EscrowError::Unauthorized => 602,
        EscrowError::InsufficientBalance => 603,
        EscrowError::InvalidAmount => 604,
        EscrowError::InvalidToken => 605,
        EscrowError::EscrowNotFound => 606,
        EscrowError::InvalidStatus => 607,
        EscrowError::DisputeActive => 608,
        EscrowError::NoDispute => 609,
        EscrowError::DisputeTimeout => 610,
        EscrowError::InvalidPercentage => 611,
        EscrowError::InvalidMilestone => 612,
        EscrowError::MilestoneAlreadyReleased => 613,
        EscrowError::InvalidTime => 614,
        EscrowError::ContractPaused => 615,
        EscrowError::TransferFailed => 616,
        EscrowError::InvalidAddress => 617,
        EscrowError::AmountTooLow => 618,
        EscrowError::AmountTooHigh => 619,
        EscrowError::ReferralNotFound => 620,
        EscrowError::DuplicateReferral => 621,
        EscrowError::EmergencyWithdrawalNotAvailable => 622,
        EscrowError::ArithmeticError => 623,
    }
}

impl EscrowError {
    /// The numeric code of the error (see `escrow_error_code`).
    pub fn code(&self) -> (r: u32)
        ensures
            r == escrow_error_code(*self),
    {
        match self {
            EscrowError::AlreadyInitialized => 600,
            EscrowError::NotInitialized => 601,
            EscrowError::Unauthorized => 602,
            EscrowError::InsufficientBalance => 603,
            EscrowError::InvalidAmount => 604,
            EscrowError::InvalidToken => 605,
            EscrowError::EscrowNotFound => 606,
            EscrowError::InvalidStatus => 607,
            EscrowError::DisputeActive => 608,
            EscrowError::NoDispute => 609,
            EscrowError::DisputeTimeout => 610,
            EscrowError::InvalidPercentage => 611,
            EscrowError::InvalidMilestone => 612,
            EscrowError::MilestoneAlreadyReleased => 613,
            EscrowError::InvalidTime => 614,
            EscrowError::ContractPaused => 615,
            EscrowError::TransferFailed => 616,
            EscrowError::InvalidAddress => 617,
            EscrowError::AmountTooLow => 618,
            EscrowError::AmountTooHigh => 619,
            EscrowError::ReferralNotFound => 620,
            EscrowError::DuplicateReferral => 621,
            EscrowError::EmergencyWithdrawalNotAvailable => 622,
            EscrowError::ArithmeticError => 623,
        }
    }
}

/// The services the escrow proxy routes to.
#[derive(Debug, Clone, Copy, PartialEq, Eq, Structural)]
pub struct EscrowContractConfig {
    pub admin: u64,
    pub escrow_management_contract: u64,
    pub dispute_resolution_contract: u64,
    pub revenue_splitting_contract: u64,
    pub referral_tracking_contract: u64,
}

/// An escrow agreement: the purchaser's payment held until its release time.
pub struct Escrow {
    pub id: Vec<u8>,
    pub event: u64,
    pub organizer: u64,
    pub purchaser: u64,
    /// The amount locked.
    pub amount: i128,
    pub token: u64,
    pub created_at: u64,
    pub release_time: u64,
    pub status: EscrowStatus,
    pub revenue_splits: RevenueSplit,
    pub referral: Option<u64>,
    /// Partial releases.
    pub milestones: Vec<Milestone>,
    pub dispute_active: bool,
}

/// How released funds are divided, in parts of `precision`.
#[derive(Debug, Clone, Copy, PartialEq, Eq, Structural)]
pub struct RevenueSplit {
    pub organizer_percentage: u32,
    pub platform_percentage: u32,
    pub referral_percentage: u32,
    pub precision: u32,
}

/// A partial release of an escrow, due at its release time.
#[derive(Debug, Clone, Copy, PartialEq, Eq, Structural)]
pub struct Milestone {
    pub id: u32,
    pub amount: i128,
    pub release_time: u64,
    pub released: bool,
}

/// The outcome of a dispute: who is awarded the funds, the refund and the penalty.
#[derive(Debug, Clone, Copy, PartialEq, Eq, Structural)]
pub struct DisputeResolution {
    pub winner: u64,
    pub refund_amount: i128,
    pub penalty_amount: i128,
}

/// A referrer's referrals and rewards.
#[derive(Debug, Clone, Copy, PartialEq, Eq, Structural)]
pub struct ReferralTracker {
    pub referrer: u64,
    pub total_rewards: i128,
    pub referral_count: u32,
    pub last_referral: u64,
}

/// The default shares, the limits on amounts and the delays of the escrow contract.
#[derive(Debug, Clone, Copy, PartialEq, Eq, Structural)]
pub struct RevenueSplitConfig {
    pub default_organizer_percentage: u32,
    pub default_platform_percentage: u32,
    pub default_referral_percentage: u32,
    pub max_referral_percentage: u32,
    pub precision: u32,
    pub min_escrow_amount: i128,
    pub max_escrow_amount: i128,
    pub dispute_timeout: u64,
    pub emergency_withdrawal_delay: u64,
}

/// The basic record of an escrow kept by the proxy.
#[derive(Debug, Clone, Copy, PartialEq, Eq, Structural)]
pub struct BasicEscrow {
    pub amount: i128,
    pub status: EscrowStatus,
    pub release_time: u64,
}

/// A dispute over an escrow.
pub struct Dispute {
    pub id: u32,
    pub escrow_id: Vec<u8>,
    pub complainant: u64,
    pub respondent: u64,
    pub reason: String,
    pub evidence: Vec<String>,
    pub status: EscrowStatus,
    pub created_at: u64,
    pub resolved_at: Option<u64>,
    pub resolution: Option<String>,
}

/// The shares of a sale: organizer, platform, and the referrer's when positive.
#[derive(Debug, Clone, Copy, PartialEq, Eq, Structural)]
pub struct RevenueShares {
    pub organizer: i128,
    pub platform: i128,
    pub referral: Option<i128>,
}

/// The bytes hashed into an escrow id: the event's and the purchaser's 8-byte and the
/// amount's 16-byte little-endian encodings.
pub open spec fn escrow_message(event: u64, purchaser: u64, amount: i128) -> Seq<u8> {
    le_bytes(event as nat, 8) + le_bytes(purchaser as nat, 8) + le_bytes(amount as u128 as nat, 16)
}

/// The low 64 bits of a 32-byte id read as a big-endian number: its last eight bytes.
pub open spec fn low64(id: Seq<u8>) -> nat {
    be_value(id.subrange(id.len() - 8, id.len() as int))
}

/// The big-endian value of a byte string.
pub open spec fn be_value(b: Seq<u8>) -> nat
    decreases b.len(),
{
    if b.len() == 0 {
        0
    } else {
        (be_value(b.drop_last()) * 256 + b.last()) as nat
    }
}

proof fn lemma_be_value_bound(b: Seq<u8>, k: nat)
    requires
        b.len() <= k,
    ensures
        be_value(b) < pow256(k),
    decreases b.len(),
{
    if b.len() > 0 {
        lemma_be_value_bound(b.drop_last(), (k - 1) as nat);
        let v = be_value(b.drop_last());
        let p = pow256((k - 1) as nat);
        assert(v * 256 + b.last() < p * 256) by (nonlinear_arith)
            requires
                v < p,
                b.last() < 256,
        ;
    } else {
        lemma_pow256_pos(k);
    }
}

/// `256^n`.
pub open spec fn pow256(n: nat) -> nat
    decreases n,
{
    if n == 0 {
        1
    } else {
        256 * pow256((n - 1) as nat)
    }
}

proof fn lemma_pow256_pos(n: nat)
    ensures
        pow256(n) >= 1,
    decreases n,
{
    if n > 0 {
        lemma_pow256_pos((n - 1) as nat);
    }
}

/// The id of a dispute: the time plus the escrow id's low 64 bits, truncated to 32
/// bits, modulo one million.
pub open spec fn dispute_id(now: u64, escrow_id: Seq<u8>) -> u32 {
    (((now + low64(escrow_id)) % 0x1_0000_0000) % 1_000_000) as u32
}

/// The proxy in front of the escrow services.
pub struct EscrowProxyContract {
    pub config: Option<EscrowContractConfig>,
    pub version: u32,
    pub escrows: ByteTable<BasicEscrow>,
    pub disputes: Table<Dispute>,
    /// The number of referrals of each referrer.
    pub referrals: Table<u32>,
}

/// The service a configuration update names.
#[derive(Debug, Clone, Copy, PartialEq, Eq, Structural)]
pub enum EscrowService {
    EscrowManagement,
    DisputeResolution,
    RevenueSplitting,
    ReferralTracking,
}

impl EscrowProxyContract {
    /// The invariant: the tables are well formed.
    pub open spec fn wf(self) -> bool {
        self.escrows.wf() && self.disputes.wf() && self.referrals.wf()
    }

    /// A proxy that has not been initialized.
    pub fn new() -> (r: Self)
        ensures
            r.wf(),
            r.config is None,
            r.version == 1,
            r.escrows.map() == Map::<Seq<u8>, BasicEscrow>::empty(),
            r.disputes.map() == Map::<u64, Dispute>::empty(),
            r.referrals.map() == Map::<u64, u32>::empty(),
    {
        EscrowProxyContract {
            config: None,
            version: 1,
            escrows: ByteTable::new(),
            disputes: Table::new(),
            referrals: Table::new(),
        }
    }

    /// Records the administrator and the services. Errors: a proxy already
    /// initialized.
    pub fn initialize(
        &mut self,
        admin: u64,
        escrow_management_contract: u64,
        dispute_resolution_contract: u64,
        revenue_splitting_contract: u64,
        referral_tracking_contract: u64,
    ) -> (r: Result<(), EscrowError>)
        requires
            old(self).wf(),
        ensures
            final(self).wf(),
            old(self).config is Some <==> r is Err,
            r is Err ==> r == Err::<(), EscrowError>(EscrowError::AlreadyInitialized),
            r is Err ==> *final(self) == *old(self),
            r is Ok ==> final(self).config == Some(
                EscrowContractConfig {
                    admin,
                    escrow_management_contract,
                    dispute_resolution_contract,
                    revenue_splitting_contract,
                    referral_tracking_contract,
                },
            ) && final(self).version == 1 && final(self).escrows == old(self).escrows,
    {
        if self.config.is_some() {
            return Err(EscrowError::AlreadyInitialized);
        }
        self.config = Some(
            EscrowContractConfig {
                admin,
                escrow_management_contract,
                dispute_resolution_contract,
                revenue_splitting_contract,
                referral_tracking_contract,
            },
        );
        self.version = 1;
        Ok(())
    }

    /// The service named by a contract type, if any.
    pub open spec fn service_of(name: Seq<char>) -> Option<EscrowService> {
        if name == "escrow_management"@ {
            Some(EscrowService::EscrowManagement)
        } else if name == "dispute_resolution"@ {
            Some(EscrowService::DisputeResolution)
        } else if name == "revenue_splitting"@ {
            Some(EscrowService::RevenueSplitting)
        } else if name == "referral_tracking"@ {
            Some(EscrowService::ReferralTracking)
        } else {
            None
        }
    }

    /// The service named by a contract type (see `service_of`).
    pub fn parse_service(name: &String) -> (r: Option<EscrowService>)
        ensures
            r == Self::service_of(name@),
    {
        proof {
            reveal_strlit("escrow_management");
            reveal_strlit("dispute_resolution");
            reveal_strlit("revenue_splitting");
            reveal_strlit("referral_tracking");
            assert("escrow_management"@.len() == 17);
            assert("dispute_resolution"@.len() == 18);
            assert("revenue_splitting"@.len() == 17);
            assert("referral_tracking"@.len() == 17);
            assert("escrow_management"@[0] != "revenue_splitting"@[0]);
            assert("escrow_management"@[0] != "referral_tracking"@[0]);
            assert("revenue_splitting"@[2] != "referral_tracking"@[2]);
        }
        if str_eq(name, &String::from_str("escrow_management")) {
            Some(EscrowService::EscrowManagement)
        } else if str_eq(name, &String::from_str("dispute_resolution")) {
            Some(EscrowService::DisputeResolution)
        } else if str_eq(name, &String::from_str("revenue_splitting")) {
            Some(EscrowService::RevenueSplitting)
        } else if str_eq(name, &String::from_str("referral_tracking")) {
            Some(EscrowService::ReferralTracking)
        } else {
            None
        }
    }

    /// Points one service at a new address. Errors: a proxy not initialized, then an
    /// unknown contract type.
    pub fn update_contract(&mut self, contract_type: &String, new_address: u64) -> (r: Result<
        (),
        EscrowError,
    >)
        requires
            old(self).wf(),
        ensures
            final(self).wf(),
            old(self).config is None ==> r == Err::<(), EscrowError>(EscrowError::NotInitialized),
            r is Err ==> *final(self) == *old(self),
            old(self).config matches Some(c) ==> match Self::service_of(contract_type@) {
                None => r == Err::<(), EscrowError>(EscrowError::InvalidAddress),
                Some(s) => r is Ok && final(self).config == Some(
                    match s {
                        EscrowService::EscrowManagement => EscrowContractConfig {
                            escrow_management_contract: new_address,
                            ..c
                        },
                        EscrowService::DisputeResolution => EscrowContractConfig {
                            dispute_resolution_contract: new_address,
                            ..c
                        },
                        EscrowService::RevenueSplitting => EscrowContractConfig {
                            revenue_splitting_contract: new_address,
                            ..c
                        },
                        EscrowService::ReferralTracking => EscrowContractConfig {
                            referral_tracking_contract: new_address,
                            ..c
                        },
                    },
                ),
            },
    {
        let mut c = match self.config {
            Some(c) => c,
            None => {
                return Err(EscrowError::NotInitialized);
            },
        };
        match Self::parse_service(contract_type) {
            Some(EscrowService::EscrowManagement) => c.escrow_management_contract = new_address,
            Some(EscrowService::DisputeResolution) => c.dispute_resolution_contract = new_address,
            Some(EscrowService::RevenueSplitting) => c.revenue_splitting_contract = new_address,
            Some(EscrowService::ReferralTracking) => c.referral_tracking_contract = new_address,
            None => {
                return Err(EscrowError::InvalidAddress);
            },
        }
        self.config = Some(c);
        Ok(())
    }

    /// The services. Errors: a proxy not initialized.
    pub fn get_config(&self) -> (r: Result<EscrowContractConfig, EscrowError>)
        ensures
            match self.config {
                Some(c) => r == Ok::<EscrowContractConfig, EscrowError>(c),
                None => r == Err::<EscrowContractConfig, EscrowError>(EscrowError::NotInitialized),
            },
    {
        match self.config {
            Some(c) => Ok(c),
            None => Err(EscrowError::NotInitialized),
        }
    }

    /// Opens an escrow: its id is the digest of the event, the purchaser and the
    /// amount (see `escrow_message`), and its record holds the amount, an active status
    /// (locked) and the release time. Errors: a proxy not initialized.
    pub fn create_escrow_proxy(
        &mut self,
        env: &soroban_sdk::Env,
        event: u64,
        organizer: u64,
        purchaser: u64,
        amount: i128,
        token: u64,
        release_time: u64,
    ) -> (r: Result<Vec<u8>, EscrowError>)
        requires
            old(self).wf(),
        ensures
            final(self).wf(),
            old(self).config is None <==> r is Err,
            r is Err ==> r == Err::<Vec<u8>, EscrowError>(EscrowError::NotInitialized),
            r is Err ==> *final(self) == *old(self),
            r matches Ok(id) ==> {
                &&& id@ == sha256_digest(escrow_message(event, purchaser, amount))
                &&& final(self).escrows.map() == old(self).escrows.map().insert(
                    id@,
                    BasicEscrow { amount, status: EscrowStatus::Locked, release_time },
                )
                &&& *final(self) == (EscrowProxyContract { escrows: final(self).escrows, ..*old(self) })
            },
    {
        if self.config.is_none() {
            return Err(EscrowError::NotInitialized);
        }
        let mut data: Vec<u8> = Vec::new();
        push_le(&mut data, event as u128, 8);
        push_le(&mut data, purchaser as u128, 8);
        push_le(&mut data, amount as u128, 16);
        assert(data@ =~= escrow_message(event, purchaser, amount));
        let id = sha256(env, &data);
        self.escrows.insert(
            copy_bytes(&id),
            BasicEscrow { amount, status: EscrowStatus::Locked, release_time },
        );
        Ok(id)
    }

    /// The low 64 bits of an id (see `low64`).
    fn low_bits(id: &Vec<u8>) -> (r: u64)
        requires
            id@.len() >= 8,
        ensures
            r == low64(id@),
    {
        let n = id.len();
        let mut v: u64 = 0;
        let mut k: usize = n - 8;
        assert(id@.subrange(n - 8, n - 8) =~= Seq::<u8>::empty());
        while k < n
            invariant
                n == id@.len(),
                n >= 8,
                n - 8 <= k <= n,
                v == be_value(id@.subrange(n - 8, k as int)),
            decreases n - k,
        {
            let ghost s = id@.subrange(n - 8, k + 1);
            assert(s.drop_last() =~= id@.subrange(n - 8, k as int));
            proof {
                lemma_be_value_bound(id@.subrange(n - 8, k as int), 7);
                assert(pow256(7) == 0x100_0000_0000_0000) by {
                    reveal_with_fuel(pow256, 8);
                }
            }
            v = v * 256 + id[k] as u64;
            k = k + 1;
        }
        v
    }

    /// Opens a dispute over an escrow, pending, under the id `dispute_id` gives.
    /// Errors: a proxy not initialized.
    pub fn create_dispute_proxy(
        &mut self,
        escrow_id: &Vec<u8>,
        complainant: u64,
        respondent: u64,
        reason: String,
        evidence: Vec<String>,
        now: u64,
    ) -> (r: Result<u32, EscrowError>)
        requires
            old(self).wf(),
            escrow_id@.len() == 32,
            now + low64(escrow_id@) <= u64::MAX,
        ensures
            final(self).wf(),
            old(self).config is None <==> r is Err,
            r is Err ==> r == Err::<u32, EscrowError>(EscrowError::NotInitialized),
            r is Err ==> *final(self) == *old(self),
            r matches Ok(id) ==> {
                let d = final(self).disputes.map()[id as u64];
                &&& id == dispute_id(now, escrow_id@)
                &&& final(self).disputes.map().dom() == old(self).disputes.map().dom().insert(id as u64)
                &&& d.id == id && d.escrow_id@ == escrow_id@ && d.complainant == complainant
                &&& d.respondent == respondent && d.reason@ == reason@
                &&& d.status == EscrowStatus::Pending && d.created_at == now
                &&& d.resolved_at is None && d.resolution is None
                &&& *final(self) == (EscrowProxyContract { disputes: final(self).disputes, ..*old(self) })
            },
    {
        if self.config.is_none() {
            return Err(EscrowError::NotInitialized);
        }
        let low = Self::low_bits(escrow_id);
        let sum = now + low;
        let id = ((sum % 0x1_0000_0000) as u32) % 1_000_000;
        let d = Dispute {
            id,
            escrow_id: copy_bytes(escrow_id),
            complainant,
            respondent,
            reason,
            evidence,
            status: EscrowStatus::Pending,
            created_at: now,
            resolved_at: None,
            resolution: None,
        };
        let ghost d0 = self.disputes.map().dom();
        self.disputes.insert(id as u64, d);
        assert(self.disputes.map().dom() =~= d0.insert(id as u64));
        Ok(id)
    }

    /// Splits a sale amount in basis points: each share is the amount times its
    /// percentage over 10000, truncated; the referral share is kept only when positive.
    /// The percentages may total at most 100%.
    pub fn calculate_revenue_split_proxy(
        amount: i128,
        organizer_percentage: u32,
        platform_percentage: u32,
        referral_percentage: u32,
    ) -> (r: Result<RevenueShares, EscrowError>)
        requires
            fits_i128(amount * organizer_percentage),
            fits_i128(amount * platform_percentage),
            fits_i128(amount * referral_percentage),
        ensures
            organizer_percentage + platform_percentage + referral_percentage > 10000 <==> r is Err,
            r is Err ==> r == Err::<RevenueShares, EscrowError>(EscrowError::InvalidPercentage),
            r matches Ok(s) ==> {
                &&& s.organizer == tdiv(amount * organizer_percentage, 10000)
                &&& s.platform == tdiv(amount * platform_percentage, 10000)
                &&& s.referral == if tdiv(amount * referral_percentage, 10000) > 0 {
                    Some(tdiv(amount * referral_percentage, 10000) as i128)
                } else {
                    None
                }
            },
    {
        let total = organizer_percentage as u64 + platform_percentage as u64 + referral_percentage as u64;
        if total > 10000 {
            return Err(EscrowError::InvalidPercentage);
        }
        let organizer = div_i128(amount * organizer_percentage as i128, 10000);
        let platform = div_i128(amount * platform_percentage as i128, 10000);
        let referral_amount = div_i128(amount * referral_percentage as i128, 10000);
        let referral = if referral_amount > 0 {
            Some(referral_amount)
        } else {
            None
        };
        Ok(RevenueShares { organizer, platform, referral })
    }

    /// The number of referrals recorded for a referrer.
    pub open spec fn referral_count(self, referrer: u64) -> nat {
        if self.referrals.map().dom().contains(referrer) {
            self.referrals.map()[referrer] as nat
        } else {
            0
        }
    }

    /// Records a referral: a self-referral is refused (false); otherwise the
    /// referrer's count grows by one (true). Errors: a proxy not initialized, a count
    /// at `u32::MAX`.
    pub fn track_referral_proxy(&mut self, referrer: u64, purchaser: u64) -> (r: Result<bool, EscrowError>)
        requires
            old(self).wf(),
        ensures
            final(self).wf(),
            old(self).config is None ==> r == Err::<bool, EscrowError>(EscrowError::NotInitialized),
            old(self).config is Some && referrer == purchaser ==> r == Ok::<bool, EscrowError>(false),
            old(self).config is Some && referrer != purchaser && old(self).referral_count(referrer)
                == u32::MAX ==> r == Err::<bool, EscrowError>(EscrowError::ArithmeticError),
            old(self).config is Some && referrer != purchaser && old(self).referral_count(referrer)
                < u32::MAX ==> r == Ok::<bool, EscrowError>(true),
            r is Err || r == Ok::<bool, EscrowError>(false) ==> *final(self) == *old(self),
            r == Ok::<bool, EscrowError>(true) ==> {
                &&& old(self).config is Some && referrer != purchaser
                &&& final(self).referral_count(referrer) == old(self).referral_count(referrer) + 1
                &&& forall|a: u64| a != referrer ==> #[trigger] final(self).referral_count(a) == old(self).referral_count(a)
                &&& *final(self) == (EscrowProxyContract { referrals: final(self).referrals, ..*old(self) })
            },
    {
        if self.config.is_none() {
            return Err(EscrowError::NotInitialized);
        }
        if referrer == purchaser {
            return Ok(false);
        }
        let count = match self.referrals.find(referrer) {
            Some(i) => self.referrals.entries[i].1,
            None => 0,
        };
        if count == u32::MAX {
            return Err(EscrowError::ArithmeticError);
        }
        self.referrals.insert(referrer, count + 1);
        Ok(true)
    }
}

/// Errors of the escrow upgrade manager.
#[derive(Debug, Clone, Copy, PartialEq, Eq, Structural)]
pub enum UpgradeManagerError {
    UnlockNotInFuture,
    NoUpgradeScheduled,
    HashMismatch,
    TimelockNotExpired,
    VersionNotGreater,
}

/// Timelocked upgrades under named keys, and the stored version.
pub struct EscrowUpgradeManager {
    /// The scheduled upgrade of each key: wasm hash and unlock time.
    pub timelocks: StrTable<(Vec<u8>, u64)>,
    /// The stored version; 1 when none is stored.
    pub version: Option<u32>,
}

impl EscrowUpgradeManager {
    /// The scheduled upgrades: key to (hash, unlock time).
    pub open spec fn scheduled(self) -> Map<Seq<char>, (Seq<u8>, u64)> {
        self.timelocks.map().map_values(|p: (Vec<u8>, u64)| (p.0@, p.1))
    }

    /// The version in force.
    pub open spec fn current_version(self) -> u32 {
        match self.version {
            Some(v) => v,
            None => 1,
        }
    }

    /// A manager with nothing scheduled.
    pub fn new() -> (r: Self)
        ensures
            r.timelocks.wf(),
            r.scheduled() == Map::<Seq<char>, (Seq<u8>, u64)>::empty(),
            r.version is None,
    {
        let r = EscrowUpgradeManager { timelocks: StrTable::new(), version: None };
        assert(r.scheduled() =~= Map::<Seq<char>, (Seq<u8>, u64)>::empty());
        r
    }

    /// Schedules an upgrade under a key, replacing any scheduled under it. Errors: an
    /// unlock time not after `now`.
    pub fn schedule_upgrade(&mut self, new_wasm_hash: Vec<u8>, unlock_time: u64, upgrade_key: String, now: u64)
        -> (r: Result<(), UpgradeManagerError>)
        requires
            old(self).timelocks.wf(),
        ensures
            final(self).timelocks.wf(),
            now >= unlock_time <==> r is Err,
            r is Err ==> r == Err::<(), UpgradeManagerError>(UpgradeManagerError::UnlockNotInFuture),
            r is Err ==> *final(self) == *old(self),
            r is Ok ==> final(self).scheduled() == old(self).scheduled().insert(
                upgrade_key@,
                (new_wasm_hash@, unlock_time),
            ) && final(self).version == old(self).version,
    {
        if now >= unlock_time {
            return Err(UpgradeManagerError::UnlockNotInFuture);
        }
        let ghost k = upgrade_key@;
        let ghost v = (new_wasm_hash@, unlock_time);
        let ghost m0 = self.scheduled();
        self.timelocks.insert(upgrade_key, (new_wasm_hash, unlock_time));
        assert(self.scheduled() =~= m0.insert(k, v));
        Ok(())
    }

    /// Cancels the upgrade scheduled under a key, if any.
    pub fn cancel_upgrade(&mut self, upgrade_key: &String)
        requires
            old(self).timelocks.wf(),
        ensures
            final(self).timelocks.wf(),
            final(self).scheduled() == old(self).scheduled().remove(upgrade_key@),
            final(self).version == old(self).version,
    {
        let ghost m0 = self.scheduled();
        self.timelocks.remove(upgrade_key);
        assert(self.scheduled() =~= m0.remove(upgrade_key@));
    }

    /// Executes the upgrade scheduled under a key: the hash must match and the unlock
    /// time must have come; the schedule is then cleared so that it cannot be reused,
    /// and the host installs the new code. Errors: nothing scheduled, another hash, an
    /// unlock time still ahead.
    pub fn execute_upgrade(&mut self, new_wasm_hash: &Vec<u8>, upgrade_key: &String, now: u64) -> (r: Result<
        (),
        UpgradeManagerError,
    >)
        requires
            old(self).timelocks.wf(),
        ensures
            final(self).timelocks.wf(),
            !old(self).scheduled().dom().contains(upgrade_key@) ==> r == Err::<(), UpgradeManagerError>(
                UpgradeManagerError::NoUpgradeScheduled,
            ),
            old(self).scheduled().dom().contains(upgrade_key@) ==> {
                let (h, t) = old(self).scheduled()[upgrade_key@];
                &&& h != new_wasm_hash@ ==> r == Err::<(), UpgradeManagerError>(
                    UpgradeManagerError::HashMismatch,
                )
                &&& h == new_wasm_hash@ && now < t ==> r == Err::<(), UpgradeManagerError>(
                    UpgradeManagerError::TimelockNotExpired,
                )
                &&& h == new_wasm_hash@ && now >= t ==> r is Ok
            },
            r is Err ==> *final(self) == *old(self),
            r is Ok ==> final(self).scheduled() == old(self).scheduled().remove(upgrade_key@)
                && final(self).version == old(self).version,
    {
        let i = match self.timelocks.find(upgrade_key) {
            Some(i) => i,
            None => {
                return Err(UpgradeManagerError::NoUpgradeScheduled);
            },
        };
        let ghost p = self.timelocks.entries@[i as int].1;
        assert(self.scheduled()[upgrade_key@] == (p.0@, p.1));
        if !bytes_eq(&self.timelocks.entries[i].1.0, new_wasm_hash) {
            return Err(UpgradeManagerError::HashMismatch);
        }
        if now < self.timelocks.entries[i].1.1 {
            return Err(UpgradeManagerError::TimelockNotExpired);
        }
        let ghost m0 = self.scheduled();
        self.timelocks.remove(upgrade_key);
        assert(self.scheduled() =~= m0.remove(upgrade_key@));
        Ok(())
    }

    /// Records a migration to `new_version`, which must exceed the version in force.
    /// Errors: a version not above the current one.
    pub fn migrate_state(&mut self, new_version: u32) -> (r: Result<(), UpgradeManagerError>)
        ensures
            new_version <= old(self).current_version() <==> r is Err,
            r is Err ==> r == Err::<(), UpgradeManagerError>(UpgradeManagerError::VersionNotGreater),
            r is Err ==> *final(self) == *old(self),
            r is Ok ==> final(self).version == Some(new_version) && final(self).timelocks == old(
                self,
            ).timelocks,
    {
        let current = match self.version {
            Some(v) => v,
            None => 1,
        };
        if new_version <= current {
            return Err(UpgradeManagerError::VersionNotGreater);
        }
        self.version = Some(new_version);
        Ok(())
    }

    /// Whether an upgrade to `new_version` is compatible: only the next version is.
    pub fn validate_upgrade_compatibility(&self, new_version: u32) -> (r: bool)
        ensures
            r == (new_version == self.current_version() + 1),
    {
        let current = match self.version {
            Some(v) => v,
            None => 1,
        };
        current < u32::MAX && new_version == current + 1
    }
}

/// An upgrade scheduled under a key runs once: after it was executed or cancelled,
/// nothing is scheduled under the key, so executing it again is refused with
/// `NoUpgradeScheduled`.
pub proof fn law_escrow_upgrade_once(before: EscrowUpgradeManager, after: EscrowUpgradeManager, key: Seq<char>)
    requires
        after.scheduled() == before.scheduled().remove(key),
    ensures
        !after.scheduled().dom().contains(key),
{
}

} // verus!
