//! The multisig wallet: M-of-N weighted signatures over proposed transfers, batches of
//! proposals, per-proposer nonces against replay, a daily spending limit, timelocks on
//! large transfers, pausing and an emergency freeze.
use vstd::prelude::*;
use crate::crypto::{sha256, sha256_digest, le_bytes, push_le};
use crate::bytes::{copy_bytes, copy_accounts, copy_ids, ids_view};

verus! {

/// Seconds in a day.
pub const DAY_SECONDS: u64 = 86400;

/// Configuration of the wallet.
#[derive(Debug, Clone, Copy, PartialEq, Eq, Structural)]
pub struct WalletConfig {
    /// Total weight of signatures required (M of M-of-N).
    pub m: u32,
    /// Total number of signers (N of M-of-N).
    pub n: u32,
    pub daily_spending_limit: i128,
    /// Transfers above this amount wait behind a timelock.
    pub timelock_threshold: i128,
    pub timelock_duration: u64,
    pub transaction_expiry: u64,
    pub max_batch_size: u32,
    pub emergency_freeze_duration: u64,
}

/// Role of a signer.
#[derive(Debug, Clone, Copy, PartialEq, Eq, Structural)]
pub enum Role {
    Owner,
    Treasurer,
    Auditor,
}

/// A registered signer.
#[derive(Debug, Clone, Copy, PartialEq, Eq, Structural)]
pub struct Signer {
    pub address: u64,
    pub role: Role,
    pub weight: u32,
    pub daily_spent: i128,
    pub last_spending_reset: u64,
    pub active: bool,
    pub added_at: u64,
}

/// Lifecycle status of a transaction.
#[derive(Debug, Clone, Copy, PartialEq, Eq, Structural)]
pub enum TransactionStatus {
    Proposed,
    Approved,
    Executed,
    Rejected,
    Expired,
    Cancelled,
}

/// Lifecycle status of a batch.
#[derive(Debug, Clone, Copy, PartialEq, Eq, Structural)]
pub enum BatchStatus {
    Proposed,
    Approved,
    Executed,
    Rejected,
    Expired,
    Cancelled,
}

/// A proposed transfer.
pub struct Transaction {
    pub id: Vec<u8>,
    pub to: u64,
    pub token: u64,
    pub amount: i128,
    pub data: Vec<u8>,
    pub proposer: u64,
    pub signatures: Vec<u64>,
    pub status: TransactionStatus,
    pub created_at: u64,
    pub expires_at: u64,
    /// 0 when the transfer is not timelocked.
    pub timelock_until: u64,
    pub batch_id: Option<Vec<u8>>,
}

/// A group of proposals approved and executed together.
pub struct Batch {
    pub id: Vec<u8>,
    pub transactions: Vec<Vec<u8>>,
    pub proposer: u64,
    pub signatures: Vec<u64>,
    pub status: BatchStatus,
    pub created_at: u64,
    pub expires_at: u64,
}

/// The queues of timelocked transactions.
pub struct TimelockQueue {
    pub pending: Vec<Vec<u8>>,
    pub ready: Vec<Vec<u8>>,
    pub executed: Vec<Vec<u8>>,
}

/// What was spent on one day.
#[derive(Debug, Clone, Copy, PartialEq, Eq, Structural)]
pub struct DailySpending {
    /// Start of the day.
    pub date: u64,
    pub spent: i128,
    pub limit: i128,
}

/// Errors of the multisig wallet.
#[derive(Debug, Clone, Copy, PartialEq, Eq, Structural)]
pub enum MultisigError {
    AlreadyInitialized,
    NotInitialized,
    Unauthorized,
    InvalidSignature,
    InsufficientSignatures,
    InvalidSigner,
    SignerNotActive,
    InvalidAmount,
    InsufficientBalance,
    TransactionNotFound,
    InvalidTransaction,
    TransactionExpired,
    TransactionAlreadyExecuted,
    DailySpendingLimitExceeded,
    TimelockNotExpired,
    BatchSizeExceeded,
    InvalidBatch,
    WalletFrozen,
    InvalidRole,
    DuplicateSigner,
    InvalidMOfN,
    InvalidThreshold,
    NonceUsed,
    InvalidNonce,
    TransferFailed,
    ContractPaused,
    InvalidAddress,
    InvalidToken,
    InvalidData,
    EmergencyFreezeActive,
    ArithmeticError,
}

/// A configuration is valid when 0 < m <= n, the spending limit and the timelock
/// threshold are positive, and batches may hold at least one transaction.
pub open spec fn config_valid(c: WalletConfig) -> bool {
    &&& c.m > 0 && c.n > 0
    &&& c.m <= c.n
    &&& c.daily_spending_limit > 0
    &&& c.timelock_threshold > 0
    &&& c.max_batch_size > 0
}

/// What is wrong with a configuration, checked in this order: M or N zero or M above
/// N, then a spending limit that is not positive, then a timelock threshold that is
/// not positive, then an empty batch size.
pub open spec fn config_error(c: WalletConfig) -> Option<MultisigError> {
    if c.m == 0 || c.n == 0 || c.m > c.n {
        Some(MultisigError::InvalidMOfN)
    } else if c.daily_spending_limit <= 0 {
        Some(MultisigError::InvalidAmount)
    } else if c.timelock_threshold <= 0 {
        Some(MultisigError::InvalidThreshold)
    } else if c.max_batch_size == 0 {
        Some(MultisigError::InvalidBatch)
    } else {
        None
    }
}

/// Checks a configuration.
pub fn validate_config(config: &WalletConfig) -> (r: Result<(), MultisigError>)
    ensures
        r is Ok <==> config_valid(*config),
        r matches Err(e) ==> config_error(*config) == Some(e),
        config_error(*config) is None <==> config_valid(*config),
{
    if config.m == 0 || config.n == 0 || config.m > config.n {
        Err(MultisigError::InvalidMOfN)
    } else if config.daily_spending_limit <= 0 {
        Err(MultisigError::InvalidAmount)
    } else if config.timelock_threshold <= 0 {
        Err(MultisigError::InvalidThreshold)
    } else if config.max_batch_size == 0 {
        Err(MultisigError::InvalidBatch)
    } else {
        Ok(())
    }
}

/// The start of the day containing `t`.
pub open spec fn day_of(t: u64) -> u64 {
    ((t / DAY_SECONDS) * DAY_SECONDS) as u64
}

/// The start of the day containing `now`.
pub fn get_today_timestamp(now: u64) -> (r: u64)
    ensures
        r == day_of(now),
        r <= now,
{
    (now / DAY_SECONDS) * DAY_SECONDS
}

/// The position of the first signer with address `a`.
pub open spec fn signer_pos(s: Seq<Signer>, a: u64) -> Option<int>
    decreases s.len(),
{
    if s.len() == 0 {
        None
    } else if s[0].address == a {
        Some(0)
    } else {
        match signer_pos(s.drop_first(), a) {
            Some(i) => Some(i + 1),
            None => None,
        }
    }
}

pub proof fn lemma_signer_pos(s: Seq<Signer>, a: u64)
    ensures
        signer_pos(s, a) matches Some(i) ==> 0 <= i < s.len() && s[i].address == a && forall|
            j: int,
        | 0 <= j < i ==> #[trigger] s[j].address != a,
        signer_pos(s, a) is None ==> forall|j: int| 0 <= j < s.len() ==> #[trigger] s[j].address != a,
    decreases s.len(),
{
    if s.len() > 0 {
        lemma_signer_pos(s.drop_first(), a);
        assert forall|j: int| 0 < j < s.len() implies s[j] == s.drop_first()[j - 1] by {}
    }
}

/// The weight an address contributes: that of the first active signer with the
/// address, or 0 when there is none.
pub open spec fn active_weight(s: Seq<Signer>, a: u64) -> int
    decreases s.len(),
{
    if s.len() == 0 {
        0
    } else if s[0].address == a && s[0].active {
        s[0].weight as int
    } else {
        active_weight(s.drop_first(), a)
    }
}

/// The total weight of a list of signatures.
pub open spec fn signature_weight(s: Seq<Signer>, sigs: Seq<u64>) -> int
    decreases sigs.len(),
{
    if sigs.len() == 0 {
        0
    } else {
        signature_weight(s, sigs.drop_last()) + active_weight(s, sigs.last())
    }
}

pub proof fn lemma_active_weight_nonneg(s: Seq<Signer>, a: u64)
    ensures
        0 <= active_weight(s, a) <= u32::MAX,
    decreases s.len(),
{
    if s.len() > 0 {
        lemma_active_weight_nonneg(s.drop_first(), a);
    }
}

pub proof fn lemma_signature_weight_mono(s: Seq<Signer>, sigs: Seq<u64>, i: int)
    requires
        0 <= i <= sigs.len(),
    ensures
        0 <= signature_weight(s, sigs.take(i)) <= signature_weight(s, sigs),
    decreases sigs.len(),
{
    if sigs.len() > 0 {
        lemma_active_weight_nonneg(s, sigs.last());
        if i == sigs.len() {
            assert(sigs.take(i) =~= sigs);
            lemma_signature_weight_mono(s, sigs.drop_last(), i - 1);
        } else {
            assert(sigs.take(i) =~= sigs.drop_last().take(i));
            lemma_signature_weight_mono(s, sigs.drop_last(), i);
        }
    }
}

pub fn active_weight_of(signers: &Vec<Signer>, a: u64) -> (r: u32)
    ensures
        r == active_weight(signers@, a),
{
    let mut i: usize = 0;
    assert(signers@.skip(0) =~= signers@);
    while i < signers.len()
        invariant
            i <= signers@.len(),
            active_weight(signers@, a) == active_weight(signers@.skip(i as int), a),
        decreases signers@.len() - i,
    {
        let s = signers[i];
        assert(signers@.skip(i as int)[0] == s);
        assert(signers@.skip(i as int).drop_first() =~= signers@.skip(i + 1));
        if s.address == a && s.active {
            return s.weight;
        }
        i = i + 1;
    }
    0
}

/// Whether the signatures carry at least `required` weight.
pub fn has_required_signatures(signers: &Vec<Signer>, signatures: &Vec<u64>, required: u32) -> (r:
    bool)
    requires
        signature_weight(signers@, signatures@) <= u32::MAX,
    ensures
        r == (signature_weight(signers@, signatures@) >= required),
{
    let mut total: u32 = 0;
    let mut i: usize = 0;
    while i < signatures.len()
        invariant
            i <= signatures@.len(),
            signature_weight(signers@, signatures@) <= u32::MAX,
            total == signature_weight(signers@, signatures@.take(i as int)),
        decreases signatures@.len() - i,
    {
        proof {
            assert(signatures@.take(i + 1).drop_last() =~= signatures@.take(i as int));
            lemma_signature_weight_mono(signers@, signatures@, i + 1);
        }
        let w = active_weight_of(signers, signatures[i]);
        total = total + w;
        i = i + 1;
    }
    assert(signatures@.take(i as int) =~= signatures@);
    total >= required
}

/// The bytes hashed to identify a proposed transaction.
pub open spec fn transaction_message(to: u64, token: u64, amount: i128, proposer: u64, nonce: u64, now: u64)
    -> Seq<u8> {
    le_bytes(to as nat, 8) + le_bytes(token as nat, 8) + le_bytes(amount as u128 as nat, 16)
        + le_bytes(proposer as nat, 8) + le_bytes(nonce as nat, 8) + le_bytes(now as nat, 8)
}

/// The identifier of a proposed transaction: the digest of its destination, token,
/// amount, proposer, nonce and proposal time.
pub fn generate_transaction_id(
    env: &soroban_sdk::Env,
    to: u64,
    token: u64,
    amount: i128,
    proposer: u64,
    nonce: u64,
    now: u64,
) -> (r: Vec<u8>)
    ensures
        r@ == sha256_digest(transaction_message(to, token, amount, proposer, nonce, now)),
        r@.len() == 32,
{
    let mut data: Vec<u8> = Vec::new();
    push_le(&mut data, to as u128, 8);
    push_le(&mut data, token as u128, 8);
    push_le(&mut data, amount as u128, 16);
    push_le(&mut data, proposer as u128, 8);
    push_le(&mut data, nonce as u128, 8);
    push_le(&mut data, now as u128, 8);
    assert(data@ =~= transaction_message(to, token, amount, proposer, nonce, now));
    sha256(env, &data)
}

/// The concatenation of a list of identifiers.
pub open spec fn concat_ids(ids: Seq<Vec<u8>>) -> Seq<u8>
    decreases ids.len(),
{
    if ids.len() == 0 {
        Seq::empty()
    } else {
        concat_ids(ids.drop_last()) + ids.last()@
    }
}

/// The bytes hashed to identify a batch.
pub open spec fn batch_message(ids: Seq<Vec<u8>>, proposer: u64, nonce: u64, now: u64) -> Seq<u8> {
    le_bytes(ids.len(), 4) + le_bytes(proposer as nat, 8) + le_bytes(nonce as nat, 8) + le_bytes(
        now as nat,
        8,
    ) + concat_ids(ids)
}

/// The identifier of a batch: the digest of its size, proposer, nonce, proposal time
/// and the identifiers of its transactions.
pub fn generate_batch_id(
    env: &soroban_sdk::Env,
    transactions: &Vec<Vec<u8>>,
    proposer: u64,
    nonce: u64,
    now: u64,
) -> (r: Vec<u8>)
    requires
        transactions@.len() <= u32::MAX,
    ensures
        r@ == sha256_digest(batch_message(transactions@, proposer, nonce, now)),
        r@.len() == 32,
{
    let mut data: Vec<u8> = Vec::new();
    push_le(&mut data, transactions.len() as u128, 4);
    push_le(&mut data, proposer as u128, 8);
    push_le(&mut data, nonce as u128, 8);
    push_le(&mut data, now as u128, 8);
    let ghost head = data@;
    let mut i: usize = 0;
    while i < transactions.len()
        invariant
            i <= transactions@.len(),
            data@ == head + concat_ids(transactions@.take(i as int)),
        decreases transactions@.len() - i,
    {
        assert(transactions@.take(i + 1).drop_last() =~= transactions@.take(i as int));
        let id = &transactions[i];
        let mut j: usize = 0;
        let ghost before = data@;
        while j < id.len()
            invariant
                j <= id@.len(),
                data@ == before + id@.take(j as int),
            decreases id@.len() - j,
        {
            data.push(id[j]);
            j = j + 1;
            assert(data@ =~= before + id@.take(j as int));
        }
        assert(id@.take(j as int) =~= id@);
        i = i + 1;
        assert(data@ =~= head + concat_ids(transactions@.take(i as int)));
    }
    assert(transactions@.take(i as int) =~= transactions@);
    assert(data@ =~= batch_message(transactions@, proposer, nonce, now));
    sha256(env, &data)
}


/// The value of a transaction, with its byte strings as sequences.
pub struct TxView {
    pub id: Seq<u8>,
    pub to: u64,
    pub token: u64,
    pub amount: i128,
    pub data: Seq<u8>,
    pub proposer: u64,
    pub signatures: Seq<u64>,
    pub status: TransactionStatus,
    pub created_at: u64,
    pub expires_at: u64,
    pub timelock_until: u64,
    pub batch_id: Option<Seq<u8>>,
}

impl View for Transaction {
    type V = TxView;

    open spec fn view(&self) -> TxView {
        TxView {
            id: self.id@,
            to: self.to,
            token: self.token,
            amount: self.amount,
            data: self.data@,
            proposer: self.proposer,
            signatures: self.signatures@,
            status: self.status,
            created_at: self.created_at,
            expires_at: self.expires_at,
            timelock_until: self.timelock_until,
            batch_id: match self.batch_id {
                Some(b) => Some(b@),
                None => None,
            },
        }
    }
}

/// The value of a batch, with its byte strings as sequences.
pub struct BatchView {
    pub id: Seq<u8>,
    pub transactions: Seq<Seq<u8>>,
    pub proposer: u64,
    pub signatures: Seq<u64>,
    pub status: BatchStatus,
    pub created_at: u64,
    pub expires_at: u64,
}

impl View for Batch {
    type V = BatchView;

    open spec fn view(&self) -> BatchView {
        BatchView {
            id: self.id@,
            transactions: ids_view(self.transactions@),
            proposer: self.proposer,
            signatures: self.signatures@,
            status: self.status,
            created_at: self.created_at,
            expires_at: self.expires_at,
        }
    }
}

impl Transaction {
    /// A copy of the transaction.
    pub fn copy(&self) -> (r: Self)
        ensures
            r@ == self@,
    {
        Transaction {
            id: copy_bytes(&self.id),
            to: self.to,
            token: self.token,
            amount: self.amount,
            data: copy_bytes(&self.data),
            proposer: self.proposer,
            signatures: copy_accounts(&self.signatures),
            status: self.status,
            created_at: self.created_at,
            expires_at: self.expires_at,
            timelock_until: self.timelock_until,
            batch_id: match &self.batch_id {
                Some(b) => Some(copy_bytes(b)),
                None => None,
            },
        }
    }
}

impl Batch {
    /// A copy of the batch.
    pub fn copy(&self) -> (r: Self)
        ensures
            r@ == self@,
    {
        Batch {
            id: copy_bytes(&self.id),
            transactions: copy_ids(&self.transactions),
            proposer: self.proposer,
            signatures: copy_accounts(&self.signatures),
            status: self.status,
            created_at: self.created_at,
            expires_at: self.expires_at,
        }
    }
}

} // verus!
