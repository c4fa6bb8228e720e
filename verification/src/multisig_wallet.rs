//! The multisig wallet contract: its state and the operations on it. Authorization,
//! token transfers and events are the host's; an operation returns the transfers it
//! decided on, and on any error leaves the state as it was.
use vstd::prelude::*;
use crate::multisig::{
    WalletConfig, Role, Signer, TransactionStatus, BatchStatus, Transaction, Batch,
    TimelockQueue, DailySpending, MultisigError, TxView, BatchView, config_error, config_valid,
    validate_config, signer_pos, lemma_signer_pos, signature_weight, day_of,
    get_today_timestamp, generate_transaction_id, transaction_message,
    lemma_signature_weight_mono, active_weight_of, lemma_active_weight_nonneg, generate_batch_id,
    batch_message,
};
use crate::table::{Table, ByteTable};
use crate::bytes::{copy_bytes, copy_ids, ids_view};
use crate::crypto::sha256_digest;
use crate::access::bytes_eq;
use crate::nonces::{NonceMap, nonce_entries, nonce_map_new, nonce_map_get, nonce_map_set, nonce_map_env};

verus! {

/// The state of a multisig wallet.
pub struct MultisigWalletContract {
    /// None until the wallet is initialized.
    pub admin: Option<u64>,
    pub config: Option<WalletConfig>,
    pub paused: bool,
    pub version: u32,
    pub frozen: bool,
    /// When an emergency freeze lapses.
    pub unfreeze_time: Option<u64>,
    pub signers: Vec<Signer>,
    pub transactions: ByteTable<Transaction>,
    pub batches: ByteTable<Batch>,
    /// What was spent, by start of day.
    pub daily_spending: Table<DailySpending>,
    pub queue: TimelockQueue,
    pub current_nonce: u64,
    /// The last nonce each proposer used.
    pub used_nonces: NonceMap,
}

/// The addresses of a list of signers.
pub open spec fn addresses(s: Seq<Signer>) -> Seq<u64> {
    s.map_values(|x: Signer| x.address)
}

/// A newly registered signer.
pub open spec fn fresh_signer(address: u64, role: Role, weight: u32, now: u64) -> Signer {
    Signer {
        address,
        role,
        weight,
        daily_spent: 0,
        last_spending_reset: now,
        active: true,
        added_at: now,
    }
}

/// The initial owners: each address becomes an owner of weight 1.
pub open spec fn owners(initial: Seq<u64>, now: u64) -> Seq<Signer> {
    initial.map_values(|a: u64| fresh_signer(a, Role::Owner, 1, now))
}

/// The outcome of checking an address against the signers: the first signer with the
/// address must be active.
pub open spec fn signer_check(s: Seq<Signer>, a: u64) -> Result<(), MultisigError> {
    match signer_pos(s, a) {
        Some(i) => if s[i].active {
            Ok(())
        } else {
            Err(MultisigError::SignerNotActive)
        },
        None => Err(MultisigError::InvalidSigner),
    }
}

/// The outcome of checking a proposer's nonce: it must exceed the last one used.
pub open spec fn nonce_check(used: Map<u64, u64>, signer: u64, nonce: u64) -> Result<
    (),
    MultisigError,
> {
    if used.dom().contains(signer) && nonce <= used[signer] {
        Err(MultisigError::NonceUsed)
    } else {
        Ok(())
    }
}

/// The index of the first signer with address `a`.
fn find_signer(signers: &Vec<Signer>, a: u64) -> (r: Option<usize>)
    ensures
        match r {
            Some(i) => signer_pos(signers@, a) == Some(i as int) && i < signers@.len()
                && signers@[i as int].address == a,
            None => signer_pos(signers@, a) is None,
        },
{
    proof {
        lemma_signer_pos(signers@, a);
    }
    let mut i: usize = 0;
    while i < signers.len()
        invariant
            i <= signers@.len(),
            forall|j: int| 0 <= j < i ==> #[trigger] signers@[j].address != a,
            signer_pos(signers@, a) matches Some(p) ==> 0 <= p < signers@.len()
                && signers@[p].address == a && forall|j: int|
                0 <= j < p ==> #[trigger] signers@[j].address != a,
            signer_pos(signers@, a) is None ==> forall|j: int|
                0 <= j < signers@.len() ==> #[trigger] signers@[j].address != a,
        decreases signers@.len() - i,
    {
        if signers[i].address == a {
            return Some(i);
        }
        i = i + 1;
    }
    None
}

/// A transfer of `amount` of `token` from the wallet to `to`, for the host to perform.
#[derive(Debug, Clone, Copy, PartialEq, Eq, Structural)]
pub struct Transfer {
    pub token: u64,
    pub to: u64,
    pub amount: i128,
}

/// `s` without the first occurrence of `k`.
pub open spec fn remove_first(s: Seq<Seq<u8>>, k: Seq<u8>) -> Seq<Seq<u8>>
    decreases s.len(),
{
    if s.len() == 0 {
        s
    } else if s[0] == k {
        s.drop_first()
    } else {
        seq![s[0]] + remove_first(s.drop_first(), k)
    }
}

proof fn lemma_remove_first(s: Seq<Seq<u8>>, k: Seq<u8>, j: int)
    requires
        0 <= j <= s.len(),
        forall|q: int| 0 <= q < j ==> s[q] != k,
        j < s.len() ==> s[j] == k,
    ensures
        j < s.len() ==> remove_first(s, k) == s.remove(j),
        j == s.len() ==> remove_first(s, k) == s,
    decreases s.len(),
{
    if s.len() > 0 && j > 0 {
        assert forall|q: int| 0 <= q < j - 1 implies s.drop_first()[q] != k by {
            assert(s.drop_first()[q] == s[q + 1]);
        }
        lemma_remove_first(s.drop_first(), k, j - 1);
        if j < s.len() {
            assert(seq![s[0]] + s.drop_first().remove(j - 1) =~= s.remove(j));
        } else {
            assert(seq![s[0]] + s.drop_first() =~= s);
        }
    } else if s.len() > 0 {
        assert(s.drop_first() =~= s.remove(0));
    }
}

/// Removes the first occurrence of `k` from a list of identifiers.
fn remove_first_id(v: &mut Vec<Vec<u8>>, k: &Vec<u8>)
    ensures
        ids_view(final(v)@) == remove_first(ids_view(old(v)@), k@),
{
    let mut j: usize = 0;
    while j < v.len()
        invariant
            j <= v@.len(),
            v@ == old(v)@,
            forall|q: int| 0 <= q < j ==> #[trigger] v@[q]@ != k@,
        decreases v@.len() - j,
    {
        if bytes_eq(&v[j], k) {
            let ghost before = v@;
            proof {
                assert forall|q: int| 0 <= q < j implies ids_view(before)[q] != k@ by {
                    assert(ids_view(before)[q] == before[q]@);
                }
                lemma_remove_first(ids_view(before), k@, j as int);
            }
            v.remove(j);
            assert(ids_view(v@) =~= ids_view(before).remove(j as int));
            return;
        }
        j = j + 1;
    }
    proof {
        assert forall|q: int| 0 <= q < j implies ids_view(v@)[q] != k@ by {
            assert(ids_view(v@)[q] == v@[q]@);
        }
        lemma_remove_first(ids_view(v@), k@, j as int);
    }
}

/// The total weight of the signatures, or None when it exceeds `u32::MAX`.
fn total_weight(signers: &Vec<Signer>, sigs: &Vec<u64>) -> (r: Option<u32>)
    ensures
        r matches Some(w) ==> w == signature_weight(signers@, sigs@),
        r is None ==> signature_weight(signers@, sigs@) > u32::MAX,
{
    let mut total: u32 = 0;
    let mut i: usize = 0;
    while i < sigs.len()
        invariant
            i <= sigs@.len(),
            total == signature_weight(signers@, sigs@.take(i as int)),
        decreases sigs@.len() - i,
    {
        proof {
            assert(sigs@.take(i + 1).drop_last() =~= sigs@.take(i as int));
            lemma_signature_weight_mono(signers@, sigs@, i + 1);
        }
        let w = active_weight_of(signers, sigs[i]);
        match total.checked_add(w) {
            Some(t) => {
                total = t;
            },
            None => {
                return None;
            },
        }
        i = i + 1;
    }
    assert(sigs@.take(i as int) =~= sigs@);
    Some(total)
}

/// Whether a list of accounts holds `a`.
fn holds_account(v: &Vec<u64>, a: u64) -> (r: bool)
    ensures
        r == v@.contains(a),
{
    let mut i: usize = 0;
    while i < v.len()
        invariant
            i <= v@.len(),
            forall|q: int| 0 <= q < i ==> v@[q] != a,
        decreases v@.len() - i,
    {
        if v[i] == a {
            return true;
        }
        i = i + 1;
    }
    false
}

/// What is wrong with the members of a proposed batch, if anything: the first member
/// that is unknown, no longer proposed, or already in a batch.
pub open spec fn batch_member_error(txs: Map<Seq<u8>, TxView>, ids: Seq<Seq<u8>>) -> Option<
    MultisigError,
>
    decreases ids.len(),
{
    if ids.len() == 0 {
        None
    } else {
        let k = ids[0];
        if !txs.dom().contains(k) {
            Some(MultisigError::TransactionNotFound)
        } else if txs[k].status != TransactionStatus::Proposed {
            Some(MultisigError::InvalidTransaction)
        } else if txs[k].batch_id is Some {
            Some(MultisigError::InvalidBatch)
        } else {
            batch_member_error(txs, ids.drop_first())
        }
    }
}

/// The transactions with each member of a batch marked as belonging to it.
pub open spec fn tag_batch(txs: Map<Seq<u8>, TxView>, ids: Seq<Seq<u8>>, bid: Seq<u8>) -> Map<
    Seq<u8>,
    TxView,
> {
    Map::new(
        |k: Seq<u8>| txs.dom().contains(k),
        |k: Seq<u8>|
            if ids.contains(k) {
                TxView { batch_id: Some(bid), ..txs[k] }
            } else {
                txs[k]
            },
    )
}

/// Runs the members of a batch in order from `txs` and the day's total `spent`: each
/// approved member becomes executed, adds its amount to the total and yields its
/// transfer; others are skipped. Fails on an unknown member or a total beyond the
/// `i128` range.
pub open spec fn run_batch(txs: Map<Seq<u8>, TxView>, spent: int, ids: Seq<Seq<u8>>) -> Result<
    (Map<Seq<u8>, TxView>, int, Seq<Transfer>),
    MultisigError,
>
    decreases ids.len(),
{
    if ids.len() == 0 {
        Ok((txs, spent, Seq::empty()))
    } else {
        match run_batch(txs, spent, ids.drop_last()) {
            Err(e) => Err(e),
            Ok((m, sp, trs)) => {
                let k = ids.last();
                if !m.dom().contains(k) {
                    Err(MultisigError::TransactionNotFound)
                } else if m[k].status == TransactionStatus::Approved {
                    let ns = sp + m[k].amount;
                    if ns > i128::MAX || ns < i128::MIN {
                        Err(MultisigError::ArithmeticError)
                    } else {
                        Ok(
                            (
                                m.insert(k, TxView { status: TransactionStatus::Executed, ..m[k] }),
                                ns,
                                trs.push(
                                    Transfer { token: m[k].token, to: m[k].to, amount: m[k].amount },
                                ),
                            ),
                        )
                    }
                } else {
                    Ok((m, sp, trs))
                }
            },
        }
    }
}

proof fn lemma_member_ok(txs: Map<Seq<u8>, TxView>, ids: Seq<Seq<u8>>, i: int)
    requires
        batch_member_error(txs, ids) is None,
        0 <= i < ids.len(),
    ensures
        txs.dom().contains(ids[i]),
        txs[ids[i]].status == TransactionStatus::Proposed,
        txs[ids[i]].batch_id is None,
    decreases ids.len(),
{
    if i > 0 {
        assert(ids.drop_first()[i - 1] == ids[i]);
        lemma_member_ok(txs, ids.drop_first(), i - 1);
    }
}

/// Once running a prefix of a batch fails, running the whole batch fails the same way.
proof fn lemma_run_batch_stuck(txs: Map<Seq<u8>, TxView>, spent: int, ids: Seq<Seq<u8>>, i: int)
    requires
        0 <= i < ids.len(),
        run_batch(txs, spent, ids.take(i + 1)) is Err,
    ensures
        run_batch(txs, spent, ids) == run_batch(txs, spent, ids.take(i + 1)),
    decreases ids.len(),
{
    if i + 1 < ids.len() {
        assert(ids.drop_last().take(i + 1) =~= ids.take(i + 1));
        lemma_run_batch_stuck(txs, spent, ids.drop_last(), i);
    } else {
        assert(ids.take(i + 1) =~= ids);
    }
}

/// A copy of a table of transactions.
fn copy_tx_table(t: &ByteTable<Transaction>) -> (r: ByteTable<Transaction>)
    requires
        t.wf(),
    ensures
        r.wf(),
        r.map().map_values(|x: Transaction| x@) == t.map().map_values(|x: Transaction| x@),
{
    let mut entries: Vec<(Vec<u8>, Transaction)> = Vec::new();
    let mut i: usize = 0;
    while i < t.entries.len()
        invariant
            i <= t.entries@.len(),
            entries@.len() == i,
            forall|j: int|
                0 <= j < i ==> #[trigger] entries@[j].0@ == t.entries@[j].0@ && entries@[j].1@
                    == t.entries@[j].1@,
        decreases t.entries@.len() - i,
    {
        let k = copy_bytes(&t.entries[i].0);
        let v = t.entries[i].1.copy();
        entries.push((k, v));
        i = i + 1;
    }
    let r = ByteTable { entries };
    assert(r.wf()) by {
        assert forall|a: int, b: int| 0 <= a < b < r.entries@.len() implies #[trigger] r.entries@[a].0@
            != #[trigger] r.entries@[b].0@ by {
            assert(t.entries@[a].0@ != t.entries@[b].0@);
        }
    }
    assert forall|k: Seq<u8>| r.map().dom().contains(k) <==> t.map().dom().contains(k) by {
        if r.has(k) {
            let p = r.pos(k);
            assert(t.entries@[p].0@ == k);
        }
        if t.has(k) {
            let p = t.pos(k);
            assert(r.entries@[p].0@ == k);
        }
    }
    assert forall|k: Seq<u8>| #[trigger] r.map().dom().contains(k) implies r.map()[k]@
        == t.map()[k]@ by {
        let p = r.pos(k);
        r.lemma_pos(p);
        t.lemma_pos(p);
    }
    assert(r.map().map_values(|x: Transaction| x@) =~= t.map().map_values(|x: Transaction| x@));
    r
}

impl MultisigWalletContract {
    /// The transactions, by identifier.
    pub open spec fn txs(self) -> Map<Seq<u8>, TxView> {
        self.transactions.map().map_values(|t: Transaction| t@)
    }

    /// The batches, by identifier.
    pub open spec fn batch_map(self) -> Map<Seq<u8>, BatchView> {
        self.batches.map().map_values(|b: Batch| b@)
    }

    /// The last nonce of each proposer.
    pub open spec fn nonces(self) -> Map<u64, u64> {
        nonce_entries(self.used_nonces)
    }

    /// What was spent, by start of day.
    pub open spec fn spending(self) -> Map<u64, DailySpending> {
        self.daily_spending.map()
    }

    /// The configuration in force.
    pub open spec fn cfg(self) -> WalletConfig {
        self.config.unwrap()
    }

    /// The wallet has been initialized.
    pub open spec fn initialized(self) -> bool {
        self.admin is Some
    }

    /// The invariant: no address is registered twice, the tables are well formed, and
    /// an initialized wallet holds a valid configuration.
    pub open spec fn wf(self) -> bool {
        &&& addresses(self.signers@).no_duplicates()
        &&& self.transactions.wf()
        &&& self.batches.wf()
        &&& self.daily_spending.wf()
        &&& self.admin is Some ==> (self.config matches Some(c) && config_valid(c))
    }

    /// A wallet that has not been initialized, in the host environment `env`.
    pub fn new(env: &soroban_sdk::Env) -> (r: Self)
        ensures
            r.wf(),
            !r.initialized(),
            r.signers@.len() == 0,
            r.txs() == Map::<Seq<u8>, TxView>::empty(),
            r.batch_map() == Map::<Seq<u8>, BatchView>::empty(),
            r.nonces() == Map::<u64, u64>::empty(),
    {
        let r = MultisigWalletContract {
            admin: None,
            config: None,
            paused: false,
            version: 1,
            frozen: false,
            unfreeze_time: None,
            signers: Vec::new(),
            transactions: ByteTable::new(),
            batches: ByteTable::new(),
            daily_spending: Table::new(),
            queue: TimelockQueue { pending: Vec::new(), ready: Vec::new(), executed: Vec::new() },
            current_nonce: 0,
            used_nonces: nonce_map_new(env),
        };
        assert(addresses(r.signers@) =~= Seq::<u64>::empty());
        assert(r.txs() =~= Map::<Seq<u8>, TxView>::empty());
        assert(r.batch_map() =~= Map::<Seq<u8>, BatchView>::empty());
        r
    }

    /// Initializes the wallet with its administrator, its configuration and its first
    /// owners, each of weight 1. Errors, in this order: a wallet already initialized, an
    /// invalid configuration (see `config_error`), and an address among the owners that
    /// is already registered or listed twice.
    #[verifier::loop_isolation(false)]
    pub fn initialize(
        &mut self,
        admin: u64,
        config: WalletConfig,
        initial_signers: &Vec<u64>,
        now: u64,
    ) -> (r: Result<(), MultisigError>)
        requires
            old(self).wf(),
        ensures
            final(self).wf(),
            old(self).initialized() ==> r == Err::<(), MultisigError>(
                MultisigError::AlreadyInitialized,
            ),
            !old(self).initialized() && config_error(config) is Some ==> r == Err::<
                (),
                MultisigError,
            >(config_error(config).unwrap()),
            !old(self).initialized() && config_valid(config) && !(addresses(old(self).signers@)
                + initial_signers@).no_duplicates() ==> r == Err::<(), MultisigError>(
                MultisigError::DuplicateSigner,
            ),
            !old(self).initialized() && config_valid(config) && (addresses(old(self).signers@)
                + initial_signers@).no_duplicates() ==> r is Ok,
            r is Err ==> *final(self) == *old(self),
            r is Ok ==> {
                &&& !old(self).initialized() && config_valid(config)
                &&& final(self).admin == Some(admin)
                &&& final(self).config == Some(config)
                &&& !final(self).paused && !final(self).frozen
                &&& final(self).version == 1
                &&& final(self).signers@ == old(self).signers@ + owners(initial_signers@, now)
                &&& final(self).nonces() == Map::<u64, u64>::empty()
                &&& final(self).current_nonce == 0
                &&& final(self).queue.pending@.len() == 0
                &&& final(self).queue.ready@.len() == 0
                &&& final(self).queue.executed@.len() == 0
                &&& final(self).transactions == old(self).transactions
                &&& final(self).batches == old(self).batches
                &&& final(self).daily_spending == old(self).daily_spending
            },
    {
        if self.admin.is_some() {
            return Err(MultisigError::AlreadyInitialized);
        }
        match validate_config(&config) {
            Err(e) => {
                return Err(e);
            },
            Ok(()) => {},
        }
        let ghost all = addresses(self.signers@) + initial_signers@;
        let mut i: usize = 0;
        while i < initial_signers.len()
            invariant
                i <= initial_signers@.len(),
                all == addresses(self.signers@) + initial_signers@,
                addresses(self.signers@).no_duplicates(),
                forall|a: int, b: int|
                    0 <= a < b < self.signers@.len() + i ==> #[trigger] all[a] != #[trigger] all[b],
            decreases initial_signers@.len() - i,
        {
            let a = initial_signers[i];
            let ghost k = self.signers@.len() + i;
            assert(all[k] == a);
            match find_signer(&self.signers, a) {
                Some(p) => {
                    proof {
                        lemma_signer_pos(self.signers@, a);
                        assert(all[p as int] == a);
                    }
                    return Err(MultisigError::DuplicateSigner);
                },
                None => {},
            }
            let mut j: usize = 0;
            while j < i
                invariant
                    j <= i < initial_signers@.len(),
                    a == initial_signers@[i as int],
                    forall|q: int| 0 <= q < j ==> #[trigger] initial_signers@[q] != a,
                decreases i - j,
            {
                if initial_signers[j] == a {
                    proof {
                        assert(all[self.signers@.len() + j] == a);
                    }
                    return Err(MultisigError::DuplicateSigner);
                }
                j = j + 1;
            }
            proof {
                lemma_signer_pos(self.signers@, a);
                assert forall|b: int| 0 <= b < k implies #[trigger] all[b] != a by {
                    if b < self.signers@.len() {
                        assert(all[b] == self.signers@[b].address);
                    } else {
                        assert(all[b] == initial_signers@[b - self.signers@.len()]);
                    }
                }
            }
            i = i + 1;
        }
        assert(all.no_duplicates());
        let mut signers: Vec<Signer> = Vec::new();
        std::mem::swap(&mut signers, &mut self.signers);
        let ghost before = signers@;
        let mut i: usize = 0;
        while i < initial_signers.len()
            invariant
                i <= initial_signers@.len(),
                signers@ == before + owners(initial_signers@.take(i as int), now),
            decreases initial_signers@.len() - i,
        {
            signers.push(
                Signer {
                    address: initial_signers[i],
                    role: Role::Owner,
                    weight: 1,
                    daily_spent: 0,
                    last_spending_reset: now,
                    active: true,
                    added_at: now,
                },
            );
            i = i + 1;
            assert(signers@ =~= before + owners(initial_signers@.take(i as int), now));
        }
        assert(initial_signers@.take(i as int) =~= initial_signers@);
        assert(addresses(signers@) =~= all);
        self.signers = signers;
        self.admin = Some(admin);
        self.config = Some(config);
        self.paused = false;
        self.version = 1;
        self.frozen = false;
        self.current_nonce = 0;
        self.used_nonces = nonce_map_new(nonce_map_env(&self.used_nonces));
        self.queue = TimelockQueue { pending: Vec::new(), ready: Vec::new(), executed: Vec::new() };
        Ok(())
    }

    /// Registers a signer. Errors: a wallet not initialized, then an address already
    /// registered.
    pub fn add_signer(&mut self, address: u64, role: Role, weight: u32, now: u64) -> (r: Result<
        (),
        MultisigError,
    >)
        requires
            old(self).wf(),
        ensures
            final(self).wf(),
            !old(self).initialized() ==> r == Err::<(), MultisigError>(
                MultisigError::NotInitialized,
            ),
            old(self).initialized() && addresses(old(self).signers@).contains(address) ==> r
                == Err::<(), MultisigError>(MultisigError::DuplicateSigner),
            old(self).initialized() && !addresses(old(self).signers@).contains(address) ==> r is Ok,
            r is Err ==> *final(self) == *old(self),
            r is Ok ==> final(self).signers@ == old(self).signers@.push(
                fresh_signer(address, role, weight, now),
            ) && final(self).transactions == old(self).transactions && final(self).config == old(
                self,
            ).config && final(self).admin == old(self).admin,
    {
        if self.admin.is_none() {
            return Err(MultisigError::NotInitialized);
        }
        proof {
            lemma_signer_pos(self.signers@, address);
        }
        match find_signer(&self.signers, address) {
            Some(p) => {
                proof {
                    assert(addresses(self.signers@)[p as int] == address);
                }
                return Err(MultisigError::DuplicateSigner);
            },
            None => {},
        }
        proof {
            if addresses(self.signers@).contains(address) {
                let q = addresses(self.signers@).index_of(address);
                assert(self.signers@[q].address == address);
            }
        }
        let ghost before = self.signers@;
        self.signers.push(
            Signer {
                address,
                role,
                weight,
                daily_spent: 0,
                last_spending_reset: now,
                active: true,
                added_at: now,
            },
        );
        assert(addresses(self.signers@) =~= addresses(before).push(address));
        Ok(())
    }

    /// Removes a signer. Errors: a wallet not initialized, an address not registered,
    /// then a removal that would leave fewer signers than the required weight M.
    pub fn remove_signer(&mut self, address: u64) -> (r: Result<(), MultisigError>)
        requires
            old(self).wf(),
        ensures
            final(self).wf(),
            !old(self).initialized() ==> r == Err::<(), MultisigError>(
                MultisigError::NotInitialized,
            ),
            old(self).initialized() && !addresses(old(self).signers@).contains(address) ==> r
                == Err::<(), MultisigError>(MultisigError::InvalidSigner),
            old(self).initialized() && addresses(old(self).signers@).contains(address) && old(
                self,
            ).signers@.len() - 1 < old(self).cfg().m ==> r == Err::<(), MultisigError>(
                MultisigError::InvalidMOfN,
            ),
            old(self).initialized() && addresses(old(self).signers@).contains(address) && old(
                self,
            ).signers@.len() - 1 >= old(self).cfg().m ==> r is Ok,
            r is Err ==> *final(self) == *old(self),
            r is Ok ==> {
                let p = addresses(old(self).signers@).index_of(address);
                &&& addresses(old(self).signers@).contains(address)
                &&& final(self).signers@ == old(self).signers@.remove(p)
                &&& final(self).transactions == old(self).transactions
                &&& final(self).config == old(self).config
                &&& final(self).admin == old(self).admin
            },
    {
        if self.admin.is_none() {
            return Err(MultisigError::NotInitialized);
        }
        proof {
            lemma_signer_pos(self.signers@, address);
        }
        let p = match find_signer(&self.signers, address) {
            Some(p) => p,
            None => {
                proof {
                    if addresses(self.signers@).contains(address) {
                        let q = addresses(self.signers@).index_of(address);
                        assert(self.signers@[q].address == address);
                    }
                }
                return Err(MultisigError::InvalidSigner);
            },
        };
        let m = match &self.config {
            Some(c) => c.m,
            None => 0,
        };
        assert(addresses(self.signers@)[p as int] == address);
        if ((self.signers.len() - 1) as u64) < m as u64 {
            return Err(MultisigError::InvalidMOfN);
        }
        proof {
            let q = addresses(self.signers@).index_of(address);
            assert(addresses(self.signers@)[q] == address);
            assert(q == p);
        }
        let ghost before = self.signers@;
        self.signers.remove(p);
        proof {
            assert(addresses(self.signers@) =~= addresses(before).remove(p as int));
            assert forall|a: int, b: int|
                0 <= a < b < addresses(self.signers@).len() implies addresses(self.signers@)[a]
                != addresses(self.signers@)[b] by {
                let aa = if a < p { a } else { a + 1 };
                let bb = if b < p { b } else { b + 1 };
                assert(addresses(self.signers@)[a] == addresses(before)[aa]);
                assert(addresses(self.signers@)[b] == addresses(before)[bb]);
            }
        }
        Ok(())
    }

    /// Checks that `signer` is a registered, active signer.
    pub fn validate_signer(&self, signer: u64) -> (r: Result<(), MultisigError>)
        ensures
            r == signer_check(self.signers@, signer),
    {
        match find_signer(&self.signers, signer) {
            Some(i) => if self.signers[i].active {
                Ok(())
            } else {
                Err(MultisigError::SignerNotActive)
            },
            None => Err(MultisigError::InvalidSigner),
        }
    }

    /// Checks that `nonce` exceeds the last nonce that `signer` used.
    pub fn validate_nonce(&self, signer: u64, nonce: u64) -> (r: Result<(), MultisigError>)
        requires
            self.wf(),
        ensures
            r == nonce_check(self.nonces(), signer, nonce),
    {
        match nonce_map_get(&self.used_nonces, signer) {
            Some(last) => if nonce <= last {
                Err(MultisigError::NonceUsed)
            } else {
                Ok(())
            },
            None => Ok(()),
        }
    }

    /// Records `nonce` as the last nonce that `signer` used.
    pub fn use_nonce(&mut self, signer: u64, nonce: u64)
        requires
            old(self).wf(),
        ensures
            final(self).wf(),
            final(self).nonces() == old(self).nonces().insert(signer, nonce),
            final(self).signers == old(self).signers,
            final(self).transactions == old(self).transactions,
            final(self).batches == old(self).batches,
            final(self).daily_spending == old(self).daily_spending,
            final(self).admin == old(self).admin,
            final(self).config == old(self).config,
            final(self).paused == old(self).paused,
            final(self).frozen == old(self).frozen,
            final(self).unfreeze_time == old(self).unfreeze_time,
            final(self).version == old(self).version,
            final(self).current_nonce == old(self).current_nonce,
            final(self).queue == old(self).queue,
    {
        nonce_map_set(&mut self.used_nonces, signer, nonce);
    }

    /// What a transaction proposal fails with, if anything, in this order: a wallet not
    /// initialized, paused, frozen; a nonce not above the proposer's last; a proposer
    /// that is not an active signer; a zero amount; a timelock or an
    /// expiry beyond the clock's range.
    pub open spec fn propose_error(self, amount: i128, proposer: u64, nonce: u64, now: u64)
        -> Option<MultisigError> {
        let c = self.cfg();
        if !self.initialized() {
            Some(MultisigError::NotInitialized)
        } else if self.paused {
            Some(MultisigError::ContractPaused)
        } else if self.frozen {
            Some(MultisigError::WalletFrozen)
        } else if nonce_check(self.nonces(), proposer, nonce) is Err {
            Some(MultisigError::NonceUsed)
        } else if signer_check(self.signers@, proposer) is Err {
            match signer_check(self.signers@, proposer) {
                Err(e) => Some(e),
                Ok(_) => None,
            }
        } else if amount == 0 {
            Some(MultisigError::InvalidAmount)
        } else if amount > c.timelock_threshold && now + c.timelock_duration > u64::MAX {
            Some(MultisigError::ArithmeticError)
        } else if now + c.transaction_expiry > u64::MAX {
            Some(MultisigError::ArithmeticError)
        } else {
            None
        }
    }

    /// The record of a newly proposed transaction: transfers above the timelock
    /// threshold wait until `now` plus the timelock duration.
    pub open spec fn proposed(
        self,
        id: Seq<u8>,
        to: u64,
        token: u64,
        amount: i128,
        data: Seq<u8>,
        proposer: u64,
        now: u64,
    ) -> TxView {
        let c = self.cfg();
        TxView {
            id,
            to,
            token,
            amount,
            data,
            proposer,
            signatures: Seq::empty(),
            status: TransactionStatus::Proposed,
            created_at: now,
            expires_at: (now + c.transaction_expiry) as u64,
            timelock_until: if amount > c.timelock_threshold {
                (now + c.timelock_duration) as u64
            } else {
                0
            },
            batch_id: None,
        }
    }

    /// Proposes a transfer of `amount` of `token` to `to`, identified by the digest of
    /// its parameters (see `transaction_message`). A timelocked transfer also joins the
    /// pending queue, and the proposer's nonce is recorded. Errors: see
    /// `propose_error`.
    pub fn propose_transaction(
        &mut self,
        env: &soroban_sdk::Env,
        to: u64,
        token: u64,
        amount: i128,
        data: Vec<u8>,
        proposer: u64,
        nonce: u64,
        now: u64,
    ) -> (r: Result<Vec<u8>, MultisigError>)
        requires
            old(self).wf(),
        ensures
            final(self).wf(),
            r is Err <==> old(self).propose_error(amount, proposer, nonce, now) is Some,
            r matches Err(e) ==> old(self).propose_error(amount, proposer, nonce, now) == Some(e),
            r is Err ==> *final(self) == *old(self),
            r matches Ok(id) ==> {
                let t = old(self).proposed(id@, to, token, amount, data@, proposer, now);
                &&& id@ == sha256_digest(
                    transaction_message(to, token, amount, proposer, nonce, now),
                )
                &&& final(self).txs() == old(self).txs().insert(id@, t)
                &&& ids_view(final(self).queue.pending@) == if t.timelock_until > 0 {
                    ids_view(old(self).queue.pending@).push(id@)
                } else {
                    ids_view(old(self).queue.pending@)
                }
                &&& final(self).queue.ready == old(self).queue.ready
                &&& final(self).queue.executed == old(self).queue.executed
                &&& final(self).nonces() == old(self).nonces().insert(proposer, nonce)
                &&& final(self).signers == old(self).signers
                &&& final(self).batches == old(self).batches
                &&& final(self).daily_spending == old(self).daily_spending
                &&& final(self).admin == old(self).admin
                &&& final(self).config == old(self).config
                &&& final(self).paused == old(self).paused
                &&& final(self).frozen == old(self).frozen
            },
    {
        let c = match &self.config {
            Some(c) => *c,
            None => {
                return Err(MultisigError::NotInitialized);
            },
        };
        if self.admin.is_none() {
            return Err(MultisigError::NotInitialized);
        }
        if self.paused {
            return Err(MultisigError::ContractPaused);
        }
        if self.frozen {
            return Err(MultisigError::WalletFrozen);
        }
        match self.validate_nonce(proposer, nonce) {
            Err(e) => {
                return Err(e);
            },
            Ok(()) => {},
        }
        match self.validate_signer(proposer) {
            Err(e) => {
                return Err(e);
            },
            Ok(()) => {},
        }
        if amount == 0 {
            return Err(MultisigError::InvalidAmount);
        }
        let timelock_until: u64 = if amount > c.timelock_threshold {
            match now.checked_add(c.timelock_duration) {
                Some(t) => t,
                None => {
                    return Err(MultisigError::ArithmeticError);
                },
            }
        } else {
            0
        };
        let expires_at: u64 = match now.checked_add(c.transaction_expiry) {
            Some(t) => t,
            None => {
                return Err(MultisigError::ArithmeticError);
            },
        };
        let id = generate_transaction_id(env, to, token, amount, proposer, nonce, now);
        let t = Transaction {
            id: copy_bytes(&id),
            to,
            token,
            amount,
            data,
            proposer,
            signatures: Vec::new(),
            status: TransactionStatus::Proposed,
            created_at: now,
            expires_at,
            timelock_until,
            batch_id: None,
        };
        let ghost tv = t@;
        let ghost old_txs = self.txs();
        self.transactions.insert(copy_bytes(&id), t);
        assert(self.txs() =~= old_txs.insert(id@, tv));
        if timelock_until > 0 {
            let ghost p = self.queue.pending@;
            self.queue.pending.push(copy_bytes(&id));
            assert(ids_view(self.queue.pending@) =~= ids_view(p).push(id@));
        }
        self.use_nonce(proposer, nonce);
        Ok(id)
    }

    /// What signing a transaction fails with, if anything, in this order: a wallet not
    /// initialized, an unknown transaction, one no longer proposed, one expired, a
    /// signer that is not active, a signer that already signed, and a total weight
    /// beyond `u32::MAX`.
    pub open spec fn sign_error(self, id: Seq<u8>, signer: u64, now: u64) -> Option<
        MultisigError,
    > {
        let t = self.txs()[id];
        if !self.initialized() {
            Some(MultisigError::NotInitialized)
        } else if !self.txs().dom().contains(id) {
            Some(MultisigError::TransactionNotFound)
        } else if t.status != TransactionStatus::Proposed {
            Some(MultisigError::InvalidTransaction)
        } else if now > t.expires_at {
            Some(MultisigError::TransactionExpired)
        } else if signer_check(self.signers@, signer) is Err {
            match signer_check(self.signers@, signer) {
                Err(e) => Some(e),
                Ok(_) => None,
            }
        } else if t.signatures.contains(signer) {
            Some(MultisigError::DuplicateSigner)
        } else if signature_weight(self.signers@, t.signatures.push(signer)) > u32::MAX {
            Some(MultisigError::ArithmeticError)
        } else {
            None
        }
    }

    /// A transaction with one more signature: approved once the signatures carry the
    /// required weight M.
    pub open spec fn signed(self, t: TxView, signer: u64) -> TxView {
        let sigs = t.signatures.push(signer);
        TxView {
            signatures: sigs,
            status: if signature_weight(self.signers@, sigs) >= self.cfg().m {
                TransactionStatus::Approved
            } else {
                TransactionStatus::Proposed
            },
            ..t
        }
    }

    /// Adds `signer`'s signature to a proposed transaction, which becomes approved once
    /// its signatures carry weight M. Errors: see `sign_error`.
    pub fn sign_transaction(&mut self, id: &Vec<u8>, signer: u64, now: u64) -> (r: Result<
        (),
        MultisigError,
    >)
        requires
            old(self).wf(),
        ensures
            final(self).wf(),
            r is Err <==> old(self).sign_error(id@, signer, now) is Some,
            r matches Err(e) ==> old(self).sign_error(id@, signer, now) == Some(e),
            r is Err ==> *final(self) == *old(self),
            r is Ok ==> {
                &&& final(self).txs() == old(self).txs().insert(
                    id@,
                    old(self).signed(old(self).txs()[id@], signer),
                )
                &&& final(self).signers == old(self).signers
                &&& final(self).batches == old(self).batches
                &&& final(self).daily_spending == old(self).daily_spending
                &&& final(self).used_nonces == old(self).used_nonces
                &&& final(self).queue == old(self).queue
                &&& final(self).admin == old(self).admin
                &&& final(self).config == old(self).config
            },
    {
        let m = match &self.config {
            Some(c) => c.m,
            None => {
                return Err(MultisigError::NotInitialized);
            },
        };
        if self.admin.is_none() {
            return Err(MultisigError::NotInitialized);
        }
        let i = match self.transactions.find(id) {
            Some(i) => i,
            None => {
                return Err(MultisigError::TransactionNotFound);
            },
        };
        let ghost tv = self.txs()[id@];
        assert(tv == self.transactions.entries@[i as int].1@);
        let mut t = self.transactions.entries[i].1.copy();
        if t.status != TransactionStatus::Proposed {
            return Err(MultisigError::InvalidTransaction);
        }
        if now > t.expires_at {
            return Err(MultisigError::TransactionExpired);
        }
        match self.validate_signer(signer) {
            Err(e) => {
                return Err(e);
            },
            Ok(()) => {},
        }
        if holds_account(&t.signatures, signer) {
            return Err(MultisigError::DuplicateSigner);
        }
        t.signatures.push(signer);
        let w = match total_weight(&self.signers, &t.signatures) {
            Some(w) => w,
            None => {
                return Err(MultisigError::ArithmeticError);
            },
        };
        if w >= m {
            t.status = TransactionStatus::Approved;
        }
        let ghost nv = t@;
        assert(nv == self.signed(tv, signer));
        let ghost old_txs = self.txs();
        self.transactions.set_at(i, t);
        assert(self.txs() =~= old_txs.insert(id@, nv));
        Ok(())
    }

    /// Today's spending record: the stored one, or an empty one under the configured
    /// limit.
    pub open spec fn today_record(self, now: u64) -> DailySpending {
        let day = day_of(now);
        if self.spending().dom().contains(day) {
            self.spending()[day]
        } else {
            DailySpending { date: day, spent: 0, limit: self.cfg().daily_spending_limit }
        }
    }

    /// Today's spending record.
    pub fn get_daily_spending(&self, now: u64) -> (r: Result<DailySpending, MultisigError>)
        requires
            self.wf(),
        ensures
            !self.initialized() ==> r == Err::<DailySpending, MultisigError>(
                MultisigError::NotInitialized,
            ),
            self.initialized() ==> r == Ok::<DailySpending, MultisigError>(
                self.today_record(now),
            ),
    {
        let limit = match &self.config {
            Some(c) => c.daily_spending_limit,
            None => {
                return Err(MultisigError::NotInitialized);
            },
        };
        if self.admin.is_none() {
            return Err(MultisigError::NotInitialized);
        }
        let day = get_today_timestamp(now);
        match self.daily_spending.find(day) {
            Some(i) => Ok(self.daily_spending.entries[i].1),
            None => Ok(DailySpending { date: day, spent: 0, limit }),
        }
    }

    /// What executing a transaction fails with, if anything, in this order: a wallet
    /// not initialized, an unknown transaction, one not approved, one expired, a
    /// timelock still running, a day's total beyond the `i128` range, and a day's total
    /// above the day's limit.
    pub open spec fn execute_error(self, id: Seq<u8>, now: u64) -> Option<MultisigError> {
        let t = self.txs()[id];
        let ds = self.today_record(now);
        if !self.initialized() {
            Some(MultisigError::NotInitialized)
        } else if !self.txs().dom().contains(id) {
            Some(MultisigError::TransactionNotFound)
        } else if t.status != TransactionStatus::Approved {
            Some(MultisigError::InsufficientSignatures)
        } else if now > t.expires_at {
            Some(MultisigError::TransactionExpired)
        } else if t.timelock_until > 0 && now < t.timelock_until {
            Some(MultisigError::TimelockNotExpired)
        } else if ds.spent + t.amount > i128::MAX || ds.spent + t.amount < i128::MIN {
            Some(MultisigError::ArithmeticError)
        } else if ds.spent + t.amount > ds.limit {
            Some(MultisigError::DailySpendingLimitExceeded)
        } else {
            None
        }
    }

    /// Executes an approved transaction: it becomes executed, its amount is added to
    /// today's spending, a timelocked one moves from the ready queue to the executed
    /// queue, and the transfer is returned for the host to make. Errors: see
    /// `execute_error`.
    pub fn execute_transaction(&mut self, id: &Vec<u8>, now: u64) -> (r: Result<
        Transfer,
        MultisigError,
    >)
        requires
            old(self).wf(),
        ensures
            final(self).wf(),
            r is Err <==> old(self).execute_error(id@, now) is Some,
            r matches Err(e) ==> old(self).execute_error(id@, now) == Some(e),
            r is Err ==> *final(self) == *old(self),
            r matches Ok(tr) ==> {
                let t = old(self).txs()[id@];
                let ds = old(self).today_record(now);
                &&& tr == Transfer { token: t.token, to: t.to, amount: t.amount }
                &&& final(self).txs() == old(self).txs().insert(
                    id@,
                    TxView { status: TransactionStatus::Executed, ..t },
                )
                &&& final(self).spending() == old(self).spending().insert(
                    day_of(now),
                    DailySpending { spent: (ds.spent + t.amount) as i128, ..ds },
                )
                &&& t.timelock_until > 0 ==> ids_view(final(self).queue.ready@) == remove_first(
                    ids_view(old(self).queue.ready@),
                    id@,
                ) && ids_view(final(self).queue.executed@) == ids_view(
                    old(self).queue.executed@,
                ).push(id@)
                &&& t.timelock_until == 0 ==> final(self).queue == old(self).queue
                &&& final(self).queue.pending == old(self).queue.pending
                &&& final(self).signers == old(self).signers
                &&& final(self).batches == old(self).batches
                &&& final(self).used_nonces == old(self).used_nonces
                &&& final(self).admin == old(self).admin
                &&& final(self).config == old(self).config
            },
    {
        let ds = match self.get_daily_spending(now) {
            Ok(ds) => ds,
            Err(e) => {
                return Err(e);
            },
        };
        let i = match self.transactions.find(id) {
            Some(i) => i,
            None => {
                return Err(MultisigError::TransactionNotFound);
            },
        };
        let ghost tv = self.txs()[id@];
        assert(tv == self.transactions.entries@[i as int].1@);
        let mut t = self.transactions.entries[i].1.copy();
        if t.status != TransactionStatus::Approved {
            return Err(MultisigError::InsufficientSignatures);
        }
        if now > t.expires_at {
            return Err(MultisigError::TransactionExpired);
        }
        if t.timelock_until > 0 && now < t.timelock_until {
            return Err(MultisigError::TimelockNotExpired);
        }
        let total = match ds.spent.checked_add(t.amount) {
            Some(v) => v,
            None => {
                return Err(MultisigError::ArithmeticError);
            },
        };
        if total > ds.limit {
            return Err(MultisigError::DailySpendingLimitExceeded);
        }
        let transfer = Transfer { token: t.token, to: t.to, amount: t.amount };
        let timelocked = t.timelock_until > 0;
        t.status = TransactionStatus::Executed;
        let ghost nv = t@;
        let ghost old_txs = self.txs();
        self.transactions.set_at(i, t);
        assert(self.txs() =~= old_txs.insert(id@, nv));
        let day = get_today_timestamp(now);
        self.daily_spending.insert(day, DailySpending { date: ds.date, spent: total, limit: ds.limit });
        if timelocked {
            remove_first_id(&mut self.queue.ready, id);
            let ghost e = self.queue.executed@;
            self.queue.executed.push(copy_bytes(id));
            assert(ids_view(self.queue.executed@) =~= ids_view(e).push(id@));
        }
        Ok(transfer)
    }

    /// What a batch proposal fails with, if anything, in this order: a wallet not
    /// initialized, paused, frozen; a nonce not above the proposer's last; a proposer
    /// that is not an active signer; more members than the batch size; a member that is
    /// unknown, no longer proposed or already in a batch; an expiry beyond the clock's
    /// range.
    pub open spec fn propose_batch_error(
        self,
        ids: Seq<Seq<u8>>,
        proposer: u64,
        nonce: u64,
        now: u64,
    ) -> Option<MultisigError> {
        let c = self.cfg();
        if !self.initialized() {
            Some(MultisigError::NotInitialized)
        } else if self.paused {
            Some(MultisigError::ContractPaused)
        } else if self.frozen {
            Some(MultisigError::WalletFrozen)
        } else if nonce_check(self.nonces(), proposer, nonce) is Err {
            Some(MultisigError::NonceUsed)
        } else if signer_check(self.signers@, proposer) is Err {
            match signer_check(self.signers@, proposer) {
                Err(e) => Some(e),
                Ok(_) => None,
            }
        } else if ids.len() > c.max_batch_size {
            Some(MultisigError::BatchSizeExceeded)
        } else if batch_member_error(self.txs(), ids) is Some {
            batch_member_error(self.txs(), ids)
        } else if now + c.transaction_expiry > u64::MAX {
            Some(MultisigError::ArithmeticError)
        } else {
            None
        }
    }

    /// Proposes a batch of proposed transactions, identified by the digest of its size,
    /// proposer, nonce, time and members (see `batch_message`). Each member is marked as
    /// belonging to the batch and the proposer's nonce is recorded. Errors: see
    /// `propose_batch_error`.
    #[verifier::loop_isolation(false)]
    pub fn propose_batch(
        &mut self,
        env: &soroban_sdk::Env,
        transactions: Vec<Vec<u8>>,
        proposer: u64,
        nonce: u64,
        now: u64,
    ) -> (r: Result<Vec<u8>, MultisigError>)
        requires
            old(self).wf(),
            transactions@.len() <= u32::MAX,
        ensures
            final(self).wf(),
            r is Err <==> old(self).propose_batch_error(
                ids_view(transactions@),
                proposer,
                nonce,
                now,
            ) is Some,
            r matches Err(e) ==> old(self).propose_batch_error(
                ids_view(transactions@),
                proposer,
                nonce,
                now,
            ) == Some(e),
            r is Err ==> *final(self) == *old(self),
            r matches Ok(bid) ==> {
                &&& bid@ == sha256_digest(batch_message(transactions@, proposer, nonce, now))
                &&& final(self).batch_map() == old(self).batch_map().insert(
                    bid@,
                    BatchView {
                        id: bid@,
                        transactions: ids_view(transactions@),
                        proposer,
                        signatures: Seq::empty(),
                        status: BatchStatus::Proposed,
                        created_at: now,
                        expires_at: (now + old(self).cfg().transaction_expiry) as u64,
                    },
                )
                &&& final(self).txs() == tag_batch(old(self).txs(), ids_view(transactions@), bid@)
                &&& final(self).nonces() == old(self).nonces().insert(proposer, nonce)
                &&& final(self).signers == old(self).signers
                &&& final(self).daily_spending == old(self).daily_spending
                &&& final(self).queue == old(self).queue
                &&& final(self).admin == old(self).admin
                &&& final(self).config == old(self).config
                &&& final(self).paused == old(self).paused
                &&& final(self).frozen == old(self).frozen
            },
    {
        let c = match &self.config {
            Some(c) => *c,
            None => {
                return Err(MultisigError::NotInitialized);
            },
        };
        if self.admin.is_none() {
            return Err(MultisigError::NotInitialized);
        }
        if self.paused {
            return Err(MultisigError::ContractPaused);
        }
        if self.frozen {
            return Err(MultisigError::WalletFrozen);
        }
        match self.validate_nonce(proposer, nonce) {
            Err(e) => {
                return Err(e);
            },
            Ok(()) => {},
        }
        match self.validate_signer(proposer) {
            Err(e) => {
                return Err(e);
            },
            Ok(()) => {},
        }
        if transactions.len() as u64 > c.max_batch_size as u64 {
            return Err(MultisigError::BatchSizeExceeded);
        }
        let ghost ids = ids_view(transactions@);
        let ghost txs0 = self.txs();
        let mut i: usize = 0;
        assert(ids.skip(0) =~= ids);
        while i < transactions.len()
            invariant
                i <= transactions@.len(),
                batch_member_error(txs0, ids) == batch_member_error(txs0, ids.skip(i as int)),
            decreases transactions@.len() - i,
        {
            let ghost k = ids[i as int];
            assert(ids.skip(i as int)[0] == k);
            assert(ids.skip(i as int).drop_first() =~= ids.skip(i + 1));
            match self.transactions.find(&transactions[i]) {
                None => {
                    return Err(MultisigError::TransactionNotFound);
                },
                Some(j) => {
                    let t = &self.transactions.entries[j].1;
                    assert(txs0[k] == t@);
                    if t.status != TransactionStatus::Proposed {
                        return Err(MultisigError::InvalidTransaction);
                    }
                    if t.batch_id.is_some() {
                        return Err(MultisigError::InvalidBatch);
                    }
                },
            }
            i = i + 1;
        }
        assert(ids.skip(i as int) =~= Seq::<Seq<u8>>::empty());
        let expires_at: u64 = match now.checked_add(c.transaction_expiry) {
            Some(t) => t,
            None => {
                return Err(MultisigError::ArithmeticError);
            },
        };
        let bid = generate_batch_id(env, &transactions, proposer, nonce, now);
        let batch = Batch {
            id: copy_bytes(&bid),
            transactions: copy_ids(&transactions),
            proposer,
            signatures: Vec::new(),
            status: BatchStatus::Proposed,
            created_at: now,
            expires_at,
        };
        let ghost bv = batch@;
        let ghost old_batches = self.batch_map();
        self.batches.insert(copy_bytes(&bid), batch);
        assert(self.batch_map() =~= old_batches.insert(bid@, bv));
        let mut table: ByteTable<Transaction> = ByteTable::new();
        std::mem::swap(&mut table, &mut self.transactions);
        let mut i: usize = 0;
        assert(table.map().map_values(|t: Transaction| t@) =~= tag_batch(
            txs0,
            ids.take(0),
            bid@,
        ));
        while i < transactions.len()
            invariant
                i <= transactions@.len(),
                table.wf(),
                table.map().map_values(|t: Transaction| t@) == tag_batch(
                    txs0,
                    ids.take(i as int),
                    bid@,
                ),
            decreases transactions@.len() - i,
        {
            let ghost k = ids[i as int];
            let ghost before = table.map().map_values(|t: Transaction| t@);
            assert(txs0.dom().contains(k)) by {
                lemma_member_ok(txs0, ids, i as int);
            }
            let j = match table.find(&transactions[i]) {
                Some(j) => j,
                None => {
                    assert(before.dom().contains(k));
                    return Err(MultisigError::TransactionNotFound);
                },
            };
            let mut t = table.entries[j].1.copy();
            assert(t@ == before[k]);
            t.batch_id = Some(copy_bytes(&bid));
            let ghost nv = t@;
            assert(nv == TxView { batch_id: Some(bid@), ..before[k] });
            table.set_at(j, t);
            assert(table.map().map_values(|t: Transaction| t@) =~= before.insert(k, nv));
            i = i + 1;
            assert forall|q: Seq<u8>| #[trigger] ids.take(i as int).contains(q) <==> (ids.take(
                i - 1,
            ).contains(q) || q == k) by {
                if ids.take(i as int).contains(q) {
                    let w = ids.take(i as int).index_of(q);
                    if w < i - 1 {
                        assert(ids.take(i - 1)[w] == q);
                    }
                }
                if ids.take(i - 1).contains(q) {
                    let w = ids.take(i - 1).index_of(q);
                    assert(ids.take(i as int)[w] == q);
                }
                if q == k {
                    assert(ids.take(i as int)[i - 1] == q);
                }
            }
            assert(table.map().map_values(|t: Transaction| t@) =~= tag_batch(
                txs0,
                ids.take(i as int),
                bid@,
            ));
        }
        assert(ids.take(i as int) =~= ids);
        std::mem::swap(&mut table, &mut self.transactions);
        self.use_nonce(proposer, nonce);
        Ok(bid)
    }

    /// What signing a batch fails with, if anything, in this order: a wallet not
    /// initialized, an unknown batch or one no longer proposed, one expired, a signer
    /// that is not active, a signer that already signed, and a total weight beyond
    /// `u32::MAX`.
    pub open spec fn sign_batch_error(self, id: Seq<u8>, signer: u64, now: u64) -> Option<
        MultisigError,
    > {
        let b = self.batch_map()[id];
        if !self.initialized() {
            Some(MultisigError::NotInitialized)
        } else if !self.batch_map().dom().contains(id) {
            Some(MultisigError::InvalidBatch)
        } else if b.status != BatchStatus::Proposed {
            Some(MultisigError::InvalidBatch)
        } else if now > b.expires_at {
            Some(MultisigError::TransactionExpired)
        } else if signer_check(self.signers@, signer) is Err {
            match signer_check(self.signers@, signer) {
                Err(e) => Some(e),
                Ok(_) => None,
            }
        } else if b.signatures.contains(signer) {
            Some(MultisigError::DuplicateSigner)
        } else if signature_weight(self.signers@, b.signatures.push(signer)) > u32::MAX {
            Some(MultisigError::ArithmeticError)
        } else {
            None
        }
    }

    /// A batch with one more signature: approved once the signatures carry the
    /// required weight M.
    pub open spec fn batch_signed(self, b: BatchView, signer: u64) -> BatchView {
        let sigs = b.signatures.push(signer);
        BatchView {
            signatures: sigs,
            status: if signature_weight(self.signers@, sigs) >= self.cfg().m {
                BatchStatus::Approved
            } else {
                BatchStatus::Proposed
            },
            ..b
        }
    }

    /// Adds `signer`'s signature to a proposed batch, which becomes approved once its
    /// signatures carry weight M. Errors: see `sign_batch_error`.
    pub fn sign_batch(&mut self, id: &Vec<u8>, signer: u64, now: u64) -> (r: Result<
        (),
        MultisigError,
    >)
        requires
            old(self).wf(),
        ensures
            final(self).wf(),
            r is Err <==> old(self).sign_batch_error(id@, signer, now) is Some,
            r matches Err(e) ==> old(self).sign_batch_error(id@, signer, now) == Some(e),
            r is Err ==> *final(self) == *old(self),
            r is Ok ==> {
                &&& final(self).batch_map() == old(self).batch_map().insert(
                    id@,
                    old(self).batch_signed(old(self).batch_map()[id@], signer),
                )
                &&& final(self).transactions == old(self).transactions
                &&& final(self).signers == old(self).signers
                &&& final(self).daily_spending == old(self).daily_spending
                &&& final(self).used_nonces == old(self).used_nonces
                &&& final(self).queue == old(self).queue
                &&& final(self).admin == old(self).admin
                &&& final(self).config == old(self).config
            },
    {
        let m = match &self.config {
            Some(c) => c.m,
            None => {
                return Err(MultisigError::NotInitialized);
            },
        };
        if self.admin.is_none() {
            return Err(MultisigError::NotInitialized);
        }
        let i = match self.batches.find(id) {
            Some(i) => i,
            None => {
                return Err(MultisigError::InvalidBatch);
            },
        };
        let ghost bv = self.batch_map()[id@];
        assert(bv == self.batches.entries@[i as int].1@);
        let mut b = self.batches.entries[i].1.copy();
        if b.status != BatchStatus::Proposed {
            return Err(MultisigError::InvalidBatch);
        }
        if now > b.expires_at {
            return Err(MultisigError::TransactionExpired);
        }
        match self.validate_signer(signer) {
            Err(e) => {
                return Err(e);
            },
            Ok(()) => {},
        }
        if holds_account(&b.signatures, signer) {
            return Err(MultisigError::DuplicateSigner);
        }
        b.signatures.push(signer);
        let w = match total_weight(&self.signers, &b.signatures) {
            Some(w) => w,
            None => {
                return Err(MultisigError::ArithmeticError);
            },
        };
        if w >= m {
            b.status = BatchStatus::Approved;
        }
        let ghost nv = b@;
        assert(nv == self.batch_signed(bv, signer));
        let ghost old_batches = self.batch_map();
        self.batches.set_at(i, b);
        assert(self.batch_map() =~= old_batches.insert(id@, nv));
        Ok(())
    }

    /// What executing a batch fails with, if anything, in this order: a wallet not
    /// initialized, an unknown batch, one not approved, one expired, then what running
    /// its members fails with (see `run_batch`).
    pub open spec fn execute_batch_error(self, id: Seq<u8>, now: u64) -> Option<MultisigError> {
        let b = self.batch_map()[id];
        if !self.initialized() {
            Some(MultisigError::NotInitialized)
        } else if !self.batch_map().dom().contains(id) {
            Some(MultisigError::InvalidBatch)
        } else if b.status != BatchStatus::Approved {
            Some(MultisigError::InsufficientSignatures)
        } else if now > b.expires_at {
            Some(MultisigError::TransactionExpired)
        } else {
            match run_batch(self.txs(), self.today_record(now).spent as int, b.transactions) {
                Err(e) => Some(e),
                Ok(_) => None,
            }
        }
    }

    /// Executes an approved batch: its approved members are executed in order (see
    /// `run_batch`), their amounts are added to today's spending without checking the
    /// daily limit, the batch becomes executed, and the transfers are returned in order
    /// for the host to make. Errors: see `execute_batch_error`.
    #[verifier::loop_isolation(false)]
    pub fn execute_batch(&mut self, id: &Vec<u8>, now: u64) -> (r: Result<
        Vec<Transfer>,
        MultisigError,
    >)
        requires
            old(self).wf(),
        ensures
            final(self).wf(),
            r is Err <==> old(self).execute_batch_error(id@, now) is Some,
            r matches Err(e) ==> old(self).execute_batch_error(id@, now) == Some(e),
            r is Err ==> *final(self) == *old(self),
            r matches Ok(trs) ==> {
                let b = old(self).batch_map()[id@];
                let ds = old(self).today_record(now);
                let (m, spent, transfers) = run_batch(old(self).txs(), ds.spent as int, b.transactions)->Ok_0;
                &&& trs@ == transfers
                &&& final(self).txs() == m
                &&& final(self).batch_map() == old(self).batch_map().insert(
                    id@,
                    BatchView { status: BatchStatus::Executed, ..b },
                )
                &&& final(self).spending() == if transfers.len() > 0 {
                    old(self).spending().insert(
                        day_of(now),
                        DailySpending { spent: spent as i128, ..ds },
                    )
                } else {
                    old(self).spending()
                }
                &&& final(self).signers == old(self).signers
                &&& final(self).used_nonces == old(self).used_nonces
                &&& final(self).queue == old(self).queue
                &&& final(self).admin == old(self).admin
                &&& final(self).config == old(self).config
            },
    {
        let ds = match self.get_daily_spending(now) {
            Ok(ds) => ds,
            Err(e) => {
                return Err(e);
            },
        };
        let bi = match self.batches.find(id) {
            Some(i) => i,
            None => {
                return Err(MultisigError::InvalidBatch);
            },
        };
        let ghost bv = self.batch_map()[id@];
        assert(bv == self.batches.entries@[bi as int].1@);
        let mut b = self.batches.entries[bi].1.copy();
        if b.status != BatchStatus::Approved {
            return Err(MultisigError::InsufficientSignatures);
        }
        if now > b.expires_at {
            return Err(MultisigError::TransactionExpired);
        }
        let ghost ids = bv.transactions;
        let ghost txs0 = self.txs();
        let mut table = copy_tx_table(&self.transactions);
        let mut spent: i128 = ds.spent;
        let mut transfers: Vec<Transfer> = Vec::new();
        let mut i: usize = 0;
        assert(ids.take(0) =~= Seq::<Seq<u8>>::empty());
        while i < b.transactions.len()
            invariant
                i <= b.transactions@.len(),
                ids == ids_view(b.transactions@),
                table.wf(),
                run_batch(txs0, ds.spent as int, ids.take(i as int)) == Ok::<
                    (Map<Seq<u8>, TxView>, int, Seq<Transfer>),
                    MultisigError,
                >((table.map().map_values(|t: Transaction| t@), spent as int, transfers@)),
            decreases b.transactions@.len() - i,
        {
            let ghost k = ids[i as int];
            let ghost before = table.map().map_values(|t: Transaction| t@);
            assert(ids.take(i + 1).drop_last() =~= ids.take(i as int));
            assert(ids.take(i + 1).last() == k);
            let j = match table.find(&b.transactions[i]) {
                Some(j) => j,
                None => {
                    proof {
                        lemma_run_batch_stuck(txs0, ds.spent as int, ids, i as int);
                    }
                    return Err(MultisigError::TransactionNotFound);
                },
            };
            let mut t = table.entries[j].1.copy();
            assert(t@ == before[k]);
            if t.status == TransactionStatus::Approved {
                let ns = match spent.checked_add(t.amount) {
                    Some(v) => v,
                    None => {
                        proof {
                            lemma_run_batch_stuck(txs0, ds.spent as int, ids, i as int);
                        }
                        return Err(MultisigError::ArithmeticError);
                    },
                };
                transfers.push(Transfer { token: t.token, to: t.to, amount: t.amount });
                spent = ns;
                t.status = TransactionStatus::Executed;
                let ghost nv = t@;
                table.set_at(j, t);
                assert(table.map().map_values(|t: Transaction| t@) =~= before.insert(k, nv));
            }
            i = i + 1;
        }
        assert(ids.take(i as int) =~= ids);
        self.transactions = table;
        if transfers.len() > 0 {
            let day = get_today_timestamp(now);
            self.daily_spending.insert(
                day,
                DailySpending { date: ds.date, spent, limit: ds.limit },
            );
        }
        b.status = BatchStatus::Executed;
        let ghost nb = b@;
        let ghost old_batches = self.batch_map();
        self.batches.set_at(bi, b);
        assert(self.batch_map() =~= old_batches.insert(id@, nb));
        Ok(transfers)
    }

    /// Freezes the wallet until `now + duration`. Errors: a wallet not initialized, then
    /// an end beyond the clock's range.
    pub fn emergency_freeze(&mut self, duration: u64, now: u64) -> (r: Result<(), MultisigError>)
        requires
            old(self).wf(),
        ensures
            final(self).wf(),
            !old(self).initialized() ==> r == Err::<(), MultisigError>(
                MultisigError::NotInitialized,
            ),
            old(self).initialized() && now + duration > u64::MAX ==> r == Err::<(), MultisigError>(
                MultisigError::ArithmeticError,
            ),
            old(self).initialized() && now + duration <= u64::MAX ==> r is Ok,
            r is Err ==> *final(self) == *old(self),
            r is Ok ==> *final(self) == (MultisigWalletContract {
                frozen: true,
                unfreeze_time: Some((now + duration) as u64),
                ..*old(self)
            }),
    {
        if self.admin.is_none() {
            return Err(MultisigError::NotInitialized);
        }
        let until = match now.checked_add(duration) {
            Some(t) => t,
            None => {
                return Err(MultisigError::ArithmeticError);
            },
        };
        self.frozen = true;
        self.unfreeze_time = Some(until);
        Ok(())
    }

    /// Whether lifting a freeze at `now` needs the administrator's authorization: it
    /// does unless the caller is the administrator or a scheduled end has passed.
    pub open spec fn unfreeze_needs_admin(self, caller: u64, now: u64) -> bool {
        &&& self.admin != Some(caller)
        &&& match self.unfreeze_time {
            Some(t) => now < t,
            None => true,
        }
    }

    /// Lifts a freeze. Returns whether the administrator's authorization is needed (see
    /// `unfreeze_needs_admin`); the host requires it before the change takes effect.
    /// Errors: a wallet not initialized.
    pub fn unfreeze(&mut self, caller: u64, now: u64) -> (r: Result<bool, MultisigError>)
        requires
            old(self).wf(),
        ensures
            final(self).wf(),
            !old(self).initialized() <==> r == Err::<bool, MultisigError>(
                MultisigError::NotInitialized,
            ),
            r is Err ==> *final(self) == *old(self),
            r matches Ok(needs) ==> needs == old(self).unfreeze_needs_admin(caller, now)
                && *final(self) == (MultisigWalletContract {
                frozen: false,
                unfreeze_time: None,
                ..*old(self)
            }),
    {
        let admin = match self.admin {
            Some(a) => a,
            None => {
                return Err(MultisigError::NotInitialized);
            },
        };
        let needs = admin != caller && match self.unfreeze_time {
            Some(t) => now < t,
            None => true,
        };
        self.frozen = false;
        self.unfreeze_time = None;
        Ok(needs)
    }

    /// Sets the pause flag. Errors: a wallet not initialized.
    pub fn set_paused(&mut self, paused: bool) -> (r: Result<(), MultisigError>)
        requires
            old(self).wf(),
        ensures
            final(self).wf(),
            !old(self).initialized() <==> r is Err,
            r is Err ==> r == Err::<(), MultisigError>(MultisigError::NotInitialized),
            r is Err ==> *final(self) == *old(self),
            r is Ok ==> *final(self) == (MultisigWalletContract { paused, ..*old(self) }),
    {
        if self.admin.is_none() {
            return Err(MultisigError::NotInitialized);
        }
        self.paused = paused;
        Ok(())
    }

    /// Pauses proposals. Errors: a wallet not initialized.
    pub fn pause(&mut self) -> (r: Result<(), MultisigError>)
        requires
            old(self).wf(),
        ensures
            final(self).wf(),
            !old(self).initialized() <==> r is Err,
            r is Err ==> r == Err::<(), MultisigError>(MultisigError::NotInitialized),
            r is Err ==> *final(self) == *old(self),
            r is Ok ==> *final(self) == (MultisigWalletContract { paused: true, ..*old(self) }),
    {
        self.set_paused(true)
    }

    /// Resumes proposals. Errors: a wallet not initialized.
    pub fn unpause(&mut self) -> (r: Result<(), MultisigError>)
        requires
            old(self).wf(),
        ensures
            final(self).wf(),
            !old(self).initialized() <==> r is Err,
            r is Err ==> r == Err::<(), MultisigError>(MultisigError::NotInitialized),
            r is Err ==> *final(self) == *old(self),
            r is Ok ==> *final(self) == (MultisigWalletContract { paused: false, ..*old(self) }),
    {
        self.set_paused(false)
    }

    /// Replaces the configuration. Errors: a wallet not initialized, then an invalid
    /// configuration (see `config_error`).
    pub fn update_config(&mut self, new_config: WalletConfig) -> (r: Result<(), MultisigError>)
        requires
            old(self).wf(),
        ensures
            final(self).wf(),
            !old(self).initialized() ==> r == Err::<(), MultisigError>(
                MultisigError::NotInitialized,
            ),
            old(self).initialized() && config_error(new_config) is Some ==> r == Err::<
                (),
                MultisigError,
            >(config_error(new_config).unwrap()),
            old(self).initialized() && config_valid(new_config) ==> r is Ok,
            r is Err ==> *final(self) == *old(self),
            r is Ok ==> old(self).initialized() && config_valid(new_config) && *final(self)
                == (MultisigWalletContract { config: Some(new_config), ..*old(self) }),
    {
        if self.admin.is_none() {
            return Err(MultisigError::NotInitialized);
        }
        match validate_config(&new_config) {
            Err(e) => Err(e),
            Ok(()) => {
                self.config = Some(new_config);
                Ok(())
            },
        }
    }

    /// The configuration. Errors: a wallet not initialized.
    pub fn get_config(&self) -> (r: Result<WalletConfig, MultisigError>)
        requires
            self.wf(),
        ensures
            !self.initialized() ==> r == Err::<WalletConfig, MultisigError>(
                MultisigError::NotInitialized,
            ),
            self.initialized() ==> r == Ok::<WalletConfig, MultisigError>(self.cfg()),
    {
        if self.admin.is_none() {
            return Err(MultisigError::NotInitialized);
        }
        match &self.config {
            Some(c) => Ok(*c),
            None => Err(MultisigError::NotInitialized),
        }
    }

    /// The registered signers, in registration order.
    pub fn get_signers(&self) -> (r: Vec<Signer>)
        ensures
            r@ == self.signers@,
    {
        let mut r: Vec<Signer> = Vec::new();
        let mut i: usize = 0;
        while i < self.signers.len()
            invariant
                i <= self.signers@.len(),
                r@ == self.signers@.take(i as int),
            decreases self.signers@.len() - i,
        {
            r.push(self.signers[i]);
            i = i + 1;
            assert(r@ =~= self.signers@.take(i as int));
        }
        assert(self.signers@.take(i as int) =~= self.signers@);
        r
    }

    /// A transaction. Errors: an unknown identifier.
    pub fn get_transaction(&self, id: &Vec<u8>) -> (r: Result<Transaction, MultisigError>)
        requires
            self.wf(),
        ensures
            !self.txs().dom().contains(id@) <==> r == Err::<Transaction, MultisigError>(
                MultisigError::TransactionNotFound,
            ),
            r matches Ok(t) ==> t@ == self.txs()[id@],
    {
        match self.transactions.find(id) {
            Some(i) => Ok(self.transactions.entries[i].1.copy()),
            None => Err(MultisigError::TransactionNotFound),
        }
    }

    /// A batch. Errors: an unknown identifier.
    pub fn get_batch(&self, id: &Vec<u8>) -> (r: Result<Batch, MultisigError>)
        requires
            self.wf(),
        ensures
            !self.batch_map().dom().contains(id@) <==> r == Err::<Batch, MultisigError>(
                MultisigError::InvalidBatch,
            ),
            r matches Ok(b) ==> b@ == self.batch_map()[id@],
    {
        match self.batches.find(id) {
            Some(i) => Ok(self.batches.entries[i].1.copy()),
            None => Err(MultisigError::InvalidBatch),
        }
    }

    /// Whether the wallet is frozen.
    pub fn is_frozen(&self) -> (r: bool)
        ensures
            r == self.frozen,
    {
        self.frozen
    }

    /// The contract version.
    pub fn version(&self) -> (r: u32)
        ensures
            r == self.version,
    {
        self.version
    }
}


/// Replay protection: once a proposer's last nonce is `n`, no transaction or batch
/// proposal of theirs with a nonce at or below `n` succeeds.
pub proof fn law_nonce_not_reusable(
    w: MultisigWalletContract,
    proposer: u64,
    nonce: u64,
    amount: i128,
    ids: Seq<Seq<u8>>,
    now: u64,
)
    requires
        w.nonces().dom().contains(proposer),
        nonce <= w.nonces()[proposer],
    ensures
        w.propose_error(amount, proposer, nonce, now) is Some,
        w.propose_batch_error(ids, proposer, nonce, now) is Some,
{
}

/// A transaction is executed at most once: an executed transaction cannot be
/// executed again.
pub proof fn law_execute_once(w: MultisigWalletContract, id: Seq<u8>, now: u64)
    requires
        w.txs().dom().contains(id),
        w.txs()[id].status == TransactionStatus::Executed,
    ensures
        w.execute_error(id, now) is Some,
{
}

/// Only transactions whose signatures reached the required weight execute, and a
/// signature moves a proposal to approved exactly when the weight reaches M.
pub proof fn law_approval_threshold(w: MultisigWalletContract, t: TxView, signer: u64)
    ensures
        (w.signed(t, signer).status == TransactionStatus::Approved) <==> signature_weight(
            w.signers@,
            t.signatures.push(signer),
        ) >= w.cfg().m,
        w.signed(t, signer).signatures == t.signatures.push(signer),
{
}

/// A single executed transaction never takes the day's spending above the day's limit.
pub proof fn law_daily_limit(w: MultisigWalletContract, id: Seq<u8>, now: u64)
    requires
        w.execute_error(id, now) is None,
    ensures
        w.today_record(now).spent + w.txs()[id].amount <= w.today_record(now).limit,
        w.txs()[id].status == TransactionStatus::Approved,
        w.txs()[id].timelock_until == 0 || now >= w.txs()[id].timelock_until,
        now <= w.txs()[id].expires_at,
{
}

/// A frozen or paused wallet accepts no proposal.
pub proof fn law_frozen_blocks_proposals(
    w: MultisigWalletContract,
    proposer: u64,
    nonce: u64,
    amount: i128,
    ids: Seq<Seq<u8>>,
    now: u64,
)
    requires
        w.frozen || w.paused,
    ensures
        w.propose_error(amount, proposer, nonce, now) is Some,
        w.propose_batch_error(ids, proposer, nonce, now) is Some,
{
}

} // verus!
