//! Whitelisted token distributions: each campaign holds a Merkle root of (account,
//! amount) allocations; an account claims its allocation once with a Merkle proof,
//! itself or through a delegate, and the campaign's administrator takes back what is
//! unclaimed after the deadline. Authorization and token transfers are the host's: an
//! operation returns the transfer it decided on, and on any error leaves the state as
//! it was.
use vstd::prelude::*;
use soroban_sdk::xdr::ToXdr;
use crate::crypto::{sha256, sha256_digest};
use crate::bytes::{copy_bytes, append_bytes, ids_view};
use crate::table::Table;
use crate::arith::fits_i128;

verus! {

/// Errors of the whitelist contract.
#[derive(Debug, Clone, Copy, PartialEq, Eq, Structural)]
pub enum WhitelistError {
    AlreadyInitialized,
    CampaignNotFound,
    CampaignInactive,
    CampaignExpired,
    AlreadyClaimed,
    InvalidProof,
    InsufficientFundsInCampaign,
    CampaignNotYetFinished,
    AlreadyRefunded,
    MismatchedLengths,
    NoDelegationFound,
    UnauthorizedDelegate,
    ArithmeticOverflow,
}

/// A distribution campaign.
pub struct Campaign {
    pub admin: u64,
    pub token: u64,
    pub root: Vec<u8>,
    pub total_amount: i128,
    pub claimed_amount: i128,
    pub deadline: u64,
    pub is_active: bool,
    pub refunded: bool,
}

/// The value of a campaign.
pub struct CampaignView {
    pub admin: u64,
    pub token: u64,
    pub root: Seq<u8>,
    pub total_amount: i128,
    pub claimed_amount: i128,
    pub deadline: u64,
    pub is_active: bool,
    pub refunded: bool,
}

impl View for Campaign {
    type V = CampaignView;

    open spec fn view(&self) -> CampaignView {
        CampaignView {
            admin: self.admin,
            token: self.token,
            root: self.root@,
            total_amount: self.total_amount,
            claimed_amount: self.claimed_amount,
            deadline: self.deadline,
            is_active: self.is_active,
            refunded: self.refunded,
        }
    }
}

impl Campaign {
    /// A copy of the campaign.
    pub fn copy(&self) -> (r: Self)
        ensures
            r@ == self@,
    {
        Campaign {
            admin: self.admin,
            token: self.token,
            root: copy_bytes(&self.root),
            total_amount: self.total_amount,
            claimed_amount: self.claimed_amount,
            deadline: self.deadline,
            is_active: self.is_active,
            refunded: self.refunded,
        }
    }
}

/// A transfer of `amount` of `token` from the contract to `to`, for the host to make.
#[derive(Debug, Clone, Copy, PartialEq, Eq, Structural)]
pub struct Payout {
    pub token: u64,
    pub to: u64,
    pub amount: i128,
}

/// The `n`-byte big-endian encoding of `x`.
pub open spec fn be_bytes(x: nat, n: nat) -> Seq<u8>
    decreases n,
{
    if n == 0 {
        Seq::empty()
    } else {
        be_bytes(x / 256, (n - 1) as nat).push((x % 256) as u8)
    }
}

/// The XDR encoding of an `i128` host value (an `ScVal::I128`): the type tag 10 as a
/// 4-byte big-endian word, then the high 64 bits as a big-endian `i64` and the low 64
/// bits as a big-endian `u64`, which together are the 16-byte big-endian two's
/// complement of the amount.
pub open spec fn xdr_i128(amount: i128) -> Seq<u8> {
    seq![0u8, 0u8, 0u8, 10u8] + be_bytes(amount as u128 as nat, 16)
}

/// Calls `ToXdr::to_xdr` on an `i128`: the host serializes it as an XDR `ScVal::I128`,
/// whose bytes `xdr_i128` spells out.
#[verifier::external_body]
fn amount_xdr(env: &soroban_sdk::Env, amount: i128) -> (r: Vec<u8>)
    ensures
        r@ == xdr_i128(amount),
{
    amount.to_xdr(env).iter().collect()
}

/// The bytes of a whitelist leaf: the account's XDR encoding followed by the amount's.
pub open spec fn leaf_message(account_xdr: Seq<u8>, amount: i128) -> Seq<u8> {
    account_xdr + xdr_i128(amount)
}

/// The leaf of an allocation: the digest of `leaf_message`. `account_xdr` is the
/// XDR encoding of the account's address.
pub fn hash_leaf(env: &soroban_sdk::Env, account_xdr: &Vec<u8>, amount: i128) -> (r: Vec<u8>)
    ensures
        r@ == sha256_digest(leaf_message(account_xdr@, amount)),
{
    let mut data = copy_bytes(account_xdr);
    let tail = amount_xdr(env, amount);
    append_bytes(&mut data, &tail);
    assert(data@ =~= leaf_message(account_xdr@, amount));
    sha256(env, &data)
}

/// Byte strings in lexicographic order.
pub open spec fn bytes_lt(a: Seq<u8>, b: Seq<u8>) -> bool
    decreases a.len(),
{
    if a.len() == 0 {
        b.len() > 0
    } else if b.len() == 0 {
        false
    } else if a[0] != b[0] {
        a[0] < b[0]
    } else {
        bytes_lt(a.drop_first(), b.drop_first())
    }
}

/// Whether `a` comes before `b` lexicographically.
fn bytes_less(a: &Vec<u8>, b: &Vec<u8>) -> (r: bool)
    ensures
        r == bytes_lt(a@, b@),
{
    let mut i: usize = 0;
    assert(a@.skip(0) =~= a@);
    assert(b@.skip(0) =~= b@);
    assert(a@.subrange(0, 0) =~= b@.subrange(0, 0));
    while i < a.len() && i < b.len()
        invariant
            i <= a@.len(),
            i <= b@.len(),
            a@.subrange(0, i as int) == b@.subrange(0, i as int),
            bytes_lt(a@, b@) == bytes_lt(a@.skip(i as int), b@.skip(i as int)),
        decreases a@.len() - i,
    {
        let ghost sa = a@.skip(i as int);
        let ghost sb = b@.skip(i as int);
        assert(sa[0] == a@[i as int] && sb[0] == b@[i as int]);
        assert(sa.drop_first() =~= a@.skip(i + 1));
        assert(sb.drop_first() =~= b@.skip(i + 1));
        if a[i] != b[i] {
            return a[i] < b[i];
        }
        assert(a@.subrange(0, i + 1) =~= a@.subrange(0, i as int).push(a@[i as int]));
        assert(b@.subrange(0, i + 1) =~= b@.subrange(0, i as int).push(b@[i as int]));
        i = i + 1;
    }
    assert(a@.skip(i as int).len() == a@.len() - i);
    assert(b@.skip(i as int).len() == b@.len() - i);
    i < b.len()
}

/// The parent of two Merkle nodes: the digest of the smaller followed by the larger.
pub open spec fn hash_pair(a: Seq<u8>, b: Seq<u8>) -> Seq<u8> {
    if bytes_lt(a, b) {
        sha256_digest(a + b)
    } else {
        sha256_digest(b + a)
    }
}

/// The root reached from a leaf along a proof path.
pub open spec fn merkle_root(leaf: Seq<u8>, proof: Seq<Seq<u8>>) -> Seq<u8>
    decreases proof.len(),
{
    if proof.len() == 0 {
        leaf
    } else {
        hash_pair(merkle_root(leaf, proof.drop_last()), proof.last())
    }
}

/// Whether a proof path leads from a leaf to a root.
pub fn verify_merkle(env: &soroban_sdk::Env, root: &Vec<u8>, leaf: Vec<u8>, proof: &Vec<Vec<u8>>) -> (r:
    bool)
    ensures
        r == (merkle_root(leaf@, ids_view(proof@)) == root@),
{
    let ghost p = ids_view(proof@);
    let ghost l = leaf@;
    let mut computed = leaf;
    let mut i: usize = 0;
    assert(p.take(0) =~= Seq::<Seq<u8>>::empty());
    while i < proof.len()
        invariant
            i <= proof@.len(),
            p == ids_view(proof@),
            computed@ == merkle_root(l, p.take(i as int)),
        decreases proof@.len() - i,
    {
        let node = &proof[i];
        let mut data: Vec<u8> = Vec::new();
        if bytes_less(&computed, node) {
            append_bytes(&mut data, &computed);
            append_bytes(&mut data, node);
        } else {
            append_bytes(&mut data, node);
            append_bytes(&mut data, &computed);
        }
        assert(p.take(i + 1).drop_last() =~= p.take(i as int));
        assert(p.take(i + 1).last() == node@);
        computed = sha256(env, &data);
        i = i + 1;
    }
    assert(p.take(i as int) =~= p);
    crate::access::bytes_eq(&computed, root)
}

/// The state of the whitelist contract.
pub struct WhitelistContract {
    /// None until the contract is initialized.
    pub admin: Option<u64>,
    pub campaign_count: u32,
    pub campaigns: Table<Campaign>,
    /// For each campaign, the delegate of each delegator.
    pub delegates: Table<Table<u64>>,
    /// For each campaign, the accounts that claimed.
    pub claimed: Table<Table<bool>>,
}

impl WhitelistContract {
    /// The campaigns, by id.
    pub open spec fn campaign_map(self) -> Map<u64, CampaignView> {
        self.campaigns.map().map_values(|c: Campaign| c@)
    }

    /// Whether an account claimed from a campaign.
    pub open spec fn has_claimed(self, campaign_id: u32, account: u64) -> bool {
        self.claimed.map().dom().contains(campaign_id as u64) && self.claimed.map()[campaign_id as u64].map().dom().contains(account)
    }

    /// The delegate of a delegator for a campaign, if any.
    pub open spec fn delegate_of(self, campaign_id: u32, delegator: u64) -> Option<u64> {
        if self.delegates.map().dom().contains(campaign_id as u64)
            && self.delegates.map()[campaign_id as u64].map().dom().contains(delegator) {
            Some(self.delegates.map()[campaign_id as u64].map()[delegator])
        } else {
            None
        }
    }

    /// The invariant: the tables, and the tables inside them, are well formed.
    pub open spec fn wf(self) -> bool {
        &&& self.campaigns.wf()
        &&& self.delegates.wf()
        &&& self.claimed.wf()
        &&& forall|k: u64| #[trigger] self.delegates.map().dom().contains(k) ==> self.delegates.map()[k].wf()
        &&& forall|k: u64| #[trigger] self.claimed.map().dom().contains(k) ==> self.claimed.map()[k].wf()
    }

    /// A contract that has not been initialized.
    pub fn new() -> (r: Self)
        ensures
            r.wf(),
            r.admin is None,
            r.campaign_count == 0,
            r.campaign_map() == Map::<u64, CampaignView>::empty(),
            r.delegates.map() == Map::<u64, Table<u64>>::empty(),
            r.claimed.map() == Map::<u64, Table<bool>>::empty(),
    {
        let r = WhitelistContract {
            admin: None,
            campaign_count: 0,
            campaigns: Table::new(),
            delegates: Table::new(),
            claimed: Table::new(),
        };
        assert(r.campaign_map() =~= Map::<u64, CampaignView>::empty());
        r
    }

    /// Initializes the contract. Errors: a contract already initialized.
    pub fn init(&mut self, admin: u64) -> (r: Result<(), WhitelistError>)
        requires
            old(self).wf(),
        ensures
            final(self).wf(),
            old(self).admin is Some <==> r is Err,
            r is Err ==> r == Err::<(), WhitelistError>(WhitelistError::AlreadyInitialized),
            r is Err ==> *final(self) == *old(self),
            r is Ok ==> *final(self) == (WhitelistContract {
                admin: Some(admin),
                campaign_count: 0,
                ..*old(self)
            }),
    {
        if self.admin.is_some() {
            return Err(WhitelistError::AlreadyInitialized);
        }
        self.admin = Some(admin);
        self.campaign_count = 0;
        Ok(())
    }

    /// Creates a campaign under the next id, active, with nothing claimed; the host
    /// moves `total_amount` of `token` from `admin` to the contract. Errors: campaign
    /// ids exhausted.
    pub fn create_campaign(
        &mut self,
        admin: u64,
        token: u64,
        root: Vec<u8>,
        deadline: u64,
        total_amount: i128,
    ) -> (r: Result<u32, WhitelistError>)
        requires
            old(self).wf(),
            admin != 0,
            token != 0,
        ensures
            final(self).wf(),
            old(self).campaign_count == u32::MAX <==> r is Err,
            r is Err ==> r == Err::<u32, WhitelistError>(WhitelistError::ArithmeticOverflow),
            r is Err ==> *final(self) == *old(self),
            r matches Ok(id) ==> {
                &&& id == old(self).campaign_count + 1
                &&& final(self).campaign_count == id
                &&& final(self).campaign_map() == old(self).campaign_map().insert(
                    id as u64,
                    CampaignView {
                        admin,
                        token,
                        root: root@,
                        total_amount,
                        claimed_amount: 0,
                        deadline,
                        is_active: true,
                        refunded: false,
                    },
                )
                &&& final(self).delegates == old(self).delegates
                &&& final(self).claimed == old(self).claimed
            },
    {
        if self.campaign_count == u32::MAX {
            return Err(WhitelistError::ArithmeticOverflow);
        }
        let id = self.campaign_count + 1;
        let c = Campaign {
            admin,
            token,
            root,
            total_amount,
            claimed_amount: 0,
            deadline,
            is_active: true,
            refunded: false,
        };
        let ghost cv = c@;
        let ghost m0 = self.campaign_map();
        self.campaigns.insert(id as u64, c);
        assert(self.campaign_map() =~= m0.insert(id as u64, cv));
        self.campaign_count = id;
        Ok(id)
    }

    /// Replaces a campaign's Merkle root. Errors: an unknown campaign.
    pub fn update_root(&mut self, campaign_id: u32, new_root: Vec<u8>) -> (r: Result<(), WhitelistError>)
        requires
            old(self).wf(),
        ensures
            final(self).wf(),
            !old(self).campaign_map().dom().contains(campaign_id as u64) <==> r is Err,
            r is Err ==> r == Err::<(), WhitelistError>(WhitelistError::CampaignNotFound),
            r is Err ==> *final(self) == *old(self),
            r is Ok ==> final(self).campaign_map() == old(self).campaign_map().insert(
                campaign_id as u64,
                CampaignView { root: new_root@, ..old(self).campaign_map()[campaign_id as u64] },
            ) && *final(self) == (WhitelistContract { campaigns: final(self).campaigns, ..*old(self) }),
    {
        let i = match self.campaigns.find(campaign_id as u64) {
            Some(i) => i,
            None => {
                return Err(WhitelistError::CampaignNotFound);
            },
        };
        let mut c = self.campaigns.entries[i].1.copy();
        c.root = new_root;
        let ghost cv = c@;
        let ghost m0 = self.campaign_map();
        self.campaigns.set_at(i, c);
        assert(self.campaign_map() =~= m0.insert(campaign_id as u64, cv));
        Ok(())
    }

    /// The campaigns after replacing the roots of the first `n` listed campaigns.
    pub open spec fn with_roots(
        m: Map<u64, CampaignView>,
        ids: Seq<u32>,
        roots: Seq<Seq<u8>>,
    ) -> Map<u64, CampaignView>
        decreases ids.len(),
    {
        if ids.len() == 0 {
            m
        } else {
            let m1 = Self::with_roots(m, ids.drop_last(), roots.drop_last());
            m1.insert(ids.last() as u64, CampaignView { root: roots.last(), ..m1[ids.last() as u64] })
        }
    }

    /// Replaces the roots of several campaigns in order. Errors: lists of different
    /// lengths, then an unknown campaign (nothing is replaced).
    pub fn batch_update_roots(&mut self, campaign_ids: &Vec<u32>, new_roots: &Vec<Vec<u8>>) -> (r:
        Result<(), WhitelistError>)
        requires
            old(self).wf(),
        ensures
            final(self).wf(),
            campaign_ids@.len() != new_roots@.len() ==> r == Err::<(), WhitelistError>(
                WhitelistError::MismatchedLengths,
            ),
            campaign_ids@.len() == new_roots@.len() ==> (r is Err <==> exists|i: int|
                0 <= i < campaign_ids@.len() && !old(self).campaign_map().dom().contains(
                    #[trigger] campaign_ids@[i] as u64,
                )),
            r is Err ==> *final(self) == *old(self),
            r is Ok ==> final(self).campaign_map() == Self::with_roots(
                old(self).campaign_map(),
                campaign_ids@,
                ids_view(new_roots@),
            ),
    {
        if campaign_ids.len() != new_roots.len() {
            return Err(WhitelistError::MismatchedLengths);
        }
        let mut i: usize = 0;
        while i < campaign_ids.len()
            invariant
                i <= campaign_ids@.len(),
                campaign_ids@.len() == new_roots@.len(),
                self.wf(),
                forall|j: int| 0 <= j < i ==> self.campaign_map().dom().contains(#[trigger] campaign_ids@[j] as u64),
            decreases campaign_ids@.len() - i,
        {
            if !self.campaigns.contains_key(campaign_ids[i] as u64) {
                return Err(WhitelistError::CampaignNotFound);
            }
            i = i + 1;
        }
        let ghost m0 = self.campaign_map();
        let ghost ids = campaign_ids@;
        let ghost roots = ids_view(new_roots@);
        let mut i: usize = 0;
        assert(ids.take(0) =~= Seq::<u32>::empty());
        assert(roots.take(0) =~= Seq::<Seq<u8>>::empty());
        while i < campaign_ids.len()
            invariant
                i <= campaign_ids@.len(),
                campaign_ids@.len() == new_roots@.len(),
                ids == campaign_ids@,
                roots == ids_view(new_roots@),
                self.wf(),
                forall|j: int| 0 <= j < ids.len() ==> m0.dom().contains(#[trigger] ids[j] as u64),
                self.campaign_map() == Self::with_roots(m0, ids.take(i as int), roots.take(i as int)),
                self.campaign_map().dom() == m0.dom(),
                self.delegates == old(self).delegates,
                self.claimed == old(self).claimed,
                self.admin == old(self).admin,
                self.campaign_count == old(self).campaign_count,
            decreases campaign_ids@.len() - i,
        {
            let id = campaign_ids[i];
            assert(m0.dom().contains(ids[i as int] as u64));
            let root = copy_bytes(&new_roots[i]);
            let ghost before = self.campaign_map();
            match self.update_root(id, root) {
                Ok(()) => {},
                Err(_) => {
                    return Err(WhitelistError::CampaignNotFound);
                },
            }
            assert(ids.take(i + 1).drop_last() =~= ids.take(i as int));
            assert(roots.take(i + 1).drop_last() =~= roots.take(i as int));
            assert(roots.take(i + 1).last() == new_roots@[i as int]@);
            i = i + 1;
            assert(self.campaign_map().dom() =~= m0.dom());
        }
        assert(ids.take(i as int) =~= ids);
        assert(roots.take(i as int) =~= roots);
        Ok(())
    }

    /// Records `delegatee` as the one who may claim for `delegator` in a campaign.
    pub fn delegate_claim(&mut self, campaign_id: u32, delegator: u64, delegatee: u64)
        requires
            old(self).wf(),
        ensures
            final(self).wf(),
            final(self).delegate_of(campaign_id, delegator) == Some(delegatee),
            forall|c: u32, d: u64|
                (c != campaign_id || d != delegator) ==> #[trigger] final(self).delegate_of(c, d) == old(
                    self,
                ).delegate_of(c, d),
            *final(self) == (WhitelistContract { delegates: final(self).delegates, ..*old(self) }),
    {
        let ghost o = *self;
        let k = campaign_id as u64;
        match self.delegates.find(k) {
            Some(i) => {
                let mut inner = self.delegates.replace_at(i, Table::new());
                inner.insert(delegator, delegatee);
                self.delegates.set_at(i, inner);
            },
            None => {
                let mut inner: Table<u64> = Table::new();
                inner.insert(delegator, delegatee);
                self.delegates.push_new(k, inner);
            },
        }
        assert forall|kk: u64| #[trigger] self.delegates.map().dom().contains(kk) implies self.delegates.map()[kk].wf() by {
            if kk != k {
                assert(o.delegates.map()[kk] == self.delegates.map()[kk]);
            }
        }
        assert forall|c: u32, d: u64| (c != campaign_id || d != delegator) implies #[trigger] self.delegate_of(c, d) == o.delegate_of(c, d) by {
            if c as u64 != k {
                assert(o.delegates.map().dom().contains(c as u64) == self.delegates.map().dom().contains(c as u64));
                if self.delegates.map().dom().contains(c as u64) {
                    assert(o.delegates.map()[c as u64] == self.delegates.map()[c as u64]);
                }
            }
        }
    }

    /// What a claim fails with, if anything, in this order: an unknown campaign, an
    /// inactive one, one past its deadline; an account that already claimed; a proof
    /// that does not lead from the allocation's leaf to the root; a claimed total
    /// beyond the `i128` range; a claimed total above the campaign's total.
    pub open spec fn claim_error(
        self,
        campaign_id: u32,
        claimant: u64,
        claimant_xdr: Seq<u8>,
        amount: i128,
        proof: Seq<Seq<u8>>,
        now: u64,
    ) -> Option<WhitelistError> {
        let c = self.campaign_map()[campaign_id as u64];
        if !self.campaign_map().dom().contains(campaign_id as u64) {
            Some(WhitelistError::CampaignNotFound)
        } else if !c.is_active {
            Some(WhitelistError::CampaignInactive)
        } else if now > c.deadline {
            Some(WhitelistError::CampaignExpired)
        } else if self.has_claimed(campaign_id, claimant) {
            Some(WhitelistError::AlreadyClaimed)
        } else if merkle_root(sha256_digest(leaf_message(claimant_xdr, amount)), proof) != c.root {
            Some(WhitelistError::InvalidProof)
        } else if !fits_i128(c.claimed_amount + amount) {
            Some(WhitelistError::ArithmeticOverflow)
        } else if c.claimed_amount + amount > c.total_amount {
            Some(WhitelistError::InsufficientFundsInCampaign)
        } else {
            None
        }
    }

    /// Claims `claimant`'s allocation of `amount` with a Merkle proof: the claimant is
    /// marked as having claimed, the campaign's claimed total grows by `amount`, and
    /// the payout to the recipient (the claimant by default) is returned. Errors: see
    /// `claim_error`.
    pub fn claim(
        &mut self,
        env: &soroban_sdk::Env,
        campaign_id: u32,
        claimant: u64,
        claimant_xdr: &Vec<u8>,
        amount: i128,
        proof: &Vec<Vec<u8>>,
        recipient: Option<u64>,
        now: u64,
    ) -> (r: Result<Payout, WhitelistError>)
        requires
            old(self).wf(),
        ensures
            final(self).wf(),
            r is Err <==> old(self).claim_error(campaign_id, claimant, claimant_xdr@, amount, ids_view(proof@), now) is Some,
            r matches Err(e) ==> old(self).claim_error(
                campaign_id,
                claimant,
                claimant_xdr@,
                amount,
                ids_view(proof@),
                now,
            ) == Some(e),
            r is Err ==> *final(self) == *old(self),
            r matches Ok(p) ==> {
                let c = old(self).campaign_map()[campaign_id as u64];
                &&& p == Payout {
                    token: c.token,
                    to: match recipient {
                        Some(a) => a,
                        None => claimant,
                    },
                    amount,
                }
                &&& final(self).campaign_map() == old(self).campaign_map().insert(
                    campaign_id as u64,
                    CampaignView { claimed_amount: (c.claimed_amount + amount) as i128, ..c },
                )
                &&& final(self).campaign_map()[campaign_id as u64].claimed_amount <= c.total_amount
                &&& final(self).has_claimed(campaign_id, claimant)
                &&& forall|cid: u32, a: u64|
                    (cid != campaign_id || a != claimant) ==> #[trigger] final(self).has_claimed(cid, a)
                        == old(self).has_claimed(cid, a)
                &&& final(self).delegates == old(self).delegates
                &&& final(self).campaign_count == old(self).campaign_count
            },
    {
        let i = match self.campaigns.find(campaign_id as u64) {
            Some(i) => i,
            None => {
                return Err(WhitelistError::CampaignNotFound);
            },
        };
        let mut c = self.campaigns.entries[i].1.copy();
        if !c.is_active {
            return Err(WhitelistError::CampaignInactive);
        }
        if now > c.deadline {
            return Err(WhitelistError::CampaignExpired);
        }
        let k = campaign_id as u64;
        let slot = self.claimed.find(k);
        match slot {
            Some(j) => {
                assert(self.claimed.map()[k] == self.claimed.entries@[j as int].1);
                if self.claimed.entries[j].1.contains_key(claimant) {
                    return Err(WhitelistError::AlreadyClaimed);
                }
            },
            None => {},
        }
        let leaf = hash_leaf(env, claimant_xdr, amount);
        if !verify_merkle(env, &c.root, leaf, proof) {
            return Err(WhitelistError::InvalidProof);
        }
        let total = match c.claimed_amount.checked_add(amount) {
            Some(t) => t,
            None => {
                return Err(WhitelistError::ArithmeticOverflow);
            },
        };
        if total > c.total_amount {
            return Err(WhitelistError::InsufficientFundsInCampaign);
        }
        let ghost o = *self;
        match slot {
            Some(j) => {
                let mut inner = self.claimed.replace_at(j, Table::new());
                inner.insert(claimant, true);
                self.claimed.set_at(j, inner);
            },
            None => {
                let mut inner: Table<bool> = Table::new();
                inner.insert(claimant, true);
                self.claimed.push_new(k, inner);
            },
        }
        assert forall|kk: u64| #[trigger] self.claimed.map().dom().contains(kk) implies self.claimed.map()[kk].wf() by {
            if kk != k {
                assert(o.claimed.map()[kk] == self.claimed.map()[kk]);
            }
        }
        assert forall|cid: u32, a: u64| (cid != campaign_id || a != claimant) implies #[trigger] self.has_claimed(cid, a)
            == o.has_claimed(cid, a) by {
            if cid as u64 != k {
                assert(o.claimed.map().dom().contains(cid as u64) == self.claimed.map().dom().contains(cid as u64));
                if self.claimed.map().dom().contains(cid as u64) {
                    assert(o.claimed.map()[cid as u64] == self.claimed.map()[cid as u64]);
                }
            }
        }
        let token = c.token;
        c.claimed_amount = total;
        let ghost cv = c@;
        let ghost m0 = self.campaign_map();
        self.campaigns.set_at(i, c);
        assert(self.campaign_map() =~= m0.insert(k, cv));
        let to = match recipient {
            Some(a) => a,
            None => claimant,
        };
        Ok(Payout { token, to, amount })
    }

    /// What a delegated claim fails with before the claim itself: no delegation, or a
    /// delegation to another account.
    pub open spec fn delegation_error(self, campaign_id: u32, delegator: u64, delegatee: u64) -> Option<
        WhitelistError,
    > {
        match self.delegate_of(campaign_id, delegator) {
            None => Some(WhitelistError::NoDelegationFound),
            Some(d) => if d != delegatee {
                Some(WhitelistError::UnauthorizedDelegate)
            } else {
                None
            },
        }
    }

    /// Claims `delegator`'s allocation on its behalf by its delegate (see `claim`).
    /// Errors: see `delegation_error`, then `claim_error` for the delegator.
    pub fn claim_as_delegate(
        &mut self,
        env: &soroban_sdk::Env,
        campaign_id: u32,
        delegator: u64,
        delegator_xdr: &Vec<u8>,
        delegatee: u64,
        amount: i128,
        proof: &Vec<Vec<u8>>,
        recipient: Option<u64>,
        now: u64,
    ) -> (r: Result<Payout, WhitelistError>)
        requires
            old(self).wf(),
        ensures
            final(self).wf(),
            old(self).delegation_error(campaign_id, delegator, delegatee) matches Some(e) ==> r
                == Err::<Payout, WhitelistError>(e) && *final(self) == *old(self),
            old(self).delegation_error(campaign_id, delegator, delegatee) is None ==> {
                &&& r is Err <==> old(self).claim_error(
                    campaign_id,
                    delegator,
                    delegator_xdr@,
                    amount,
                    ids_view(proof@),
                    now,
                ) is Some
                &&& r matches Err(e) ==> old(self).claim_error(
                    campaign_id,
                    delegator,
                    delegator_xdr@,
                    amount,
                    ids_view(proof@),
                    now,
                ) == Some(e) && *final(self) == *old(self)
                &&& r matches Ok(p) ==> final(self).has_claimed(campaign_id, delegator) && p.amount == amount
                    && p.to == match recipient {
                    Some(a) => a,
                    None => delegator,
                }
            },
    {
        let k = campaign_id as u64;
        match self.delegates.find(k) {
            None => {
                return Err(WhitelistError::NoDelegationFound);
            },
            Some(i) => {
                assert(self.delegates.map()[k] == self.delegates.entries@[i as int].1);
                match self.delegates.entries[i].1.find(delegator) {
                    None => {
                        return Err(WhitelistError::NoDelegationFound);
                    },
                    Some(j) => {
                        if self.delegates.entries[i].1.entries[j].1 != delegatee {
                            return Err(WhitelistError::UnauthorizedDelegate);
                        }
                    },
                }
            },
        }
        self.claim(env, campaign_id, delegator, delegator_xdr, amount, proof, recipient, now)
    }

    /// What a refund fails with, if anything: an unknown campaign, one whose deadline
    /// has not passed, one already refunded.
    pub open spec fn refund_error(self, campaign_id: u32, now: u64) -> Option<WhitelistError> {
        let c = self.campaign_map()[campaign_id as u64];
        if !self.campaign_map().dom().contains(campaign_id as u64) {
            Some(WhitelistError::CampaignNotFound)
        } else if now <= c.deadline {
            Some(WhitelistError::CampaignNotYetFinished)
        } else if c.refunded {
            Some(WhitelistError::AlreadyRefunded)
        } else {
            None
        }
    }

    /// Closes a campaign after its deadline: it becomes refunded and inactive, and what
    /// is unclaimed, if positive, is paid back to its administrator. Errors: see
    /// `refund_error`.
    pub fn refund(&mut self, campaign_id: u32, now: u64) -> (r: Result<Option<Payout>, WhitelistError>)
        requires
            old(self).wf(),
            old(self).campaign_map().dom().contains(campaign_id as u64) ==> fits_i128(
                old(self).campaign_map()[campaign_id as u64].total_amount - old(
                    self,
                ).campaign_map()[campaign_id as u64].claimed_amount,
            ),
        ensures
            final(self).wf(),
            r is Err <==> old(self).refund_error(campaign_id, now) is Some,
            r matches Err(e) ==> old(self).refund_error(campaign_id, now) == Some(e),
            r is Err ==> *final(self) == *old(self),
            r matches Ok(p) ==> {
                let c = old(self).campaign_map()[campaign_id as u64];
                let remaining = c.total_amount - c.claimed_amount;
                &&& p == if remaining > 0 {
                    Some(Payout { token: c.token, to: c.admin, amount: remaining as i128 })
                } else {
                    None
                }
                &&& final(self).campaign_map() == old(self).campaign_map().insert(
                    campaign_id as u64,
                    CampaignView { refunded: true, is_active: false, ..c },
                )
                &&& *final(self) == (WhitelistContract { campaigns: final(self).campaigns, ..*old(self) })
            },
    {
        let i = match self.campaigns.find(campaign_id as u64) {
            Some(i) => i,
            None => {
                return Err(WhitelistError::CampaignNotFound);
            },
        };
        let mut c = self.campaigns.entries[i].1.copy();
        if now <= c.deadline {
            return Err(WhitelistError::CampaignNotYetFinished);
        }
        if c.refunded {
            return Err(WhitelistError::AlreadyRefunded);
        }
        let remaining = c.total_amount - c.claimed_amount;
        let payout = if remaining > 0 {
            Some(Payout { token: c.token, to: c.admin, amount: remaining })
        } else {
            None
        };
        c.refunded = true;
        c.is_active = false;
        let ghost cv = c@;
        let ghost m0 = self.campaign_map();
        self.campaigns.set_at(i, c);
        assert(self.campaign_map() =~= m0.insert(campaign_id as u64, cv));
        Ok(payout)
    }

    /// A campaign. Errors: an unknown campaign.
    pub fn get_campaign(&self, campaign_id: u32) -> (r: Result<Campaign, WhitelistError>)
        requires
            self.wf(),
        ensures
            !self.campaign_map().dom().contains(campaign_id as u64) <==> r is Err,
            r is Err ==> r == Err::<Campaign, WhitelistError>(WhitelistError::CampaignNotFound),
            r matches Ok(c) ==> c@ == self.campaign_map()[campaign_id as u64],
    {
        match self.campaigns.find(campaign_id as u64) {
            Some(i) => Ok(self.campaigns.entries[i].1.copy()),
            None => Err(WhitelistError::CampaignNotFound),
        }
    }
}


/// An account claims from a campaign at most once: once it has claimed, every further
/// claim of it fails.
pub proof fn law_single_claim(
    w: WhitelistContract,
    campaign_id: u32,
    claimant: u64,
    claimant_xdr: Seq<u8>,
    amount: i128,
    proof: Seq<Seq<u8>>,
    now: u64,
)
    requires
        w.has_claimed(campaign_id, claimant),
    ensures
        w.claim_error(campaign_id, claimant, claimant_xdr, amount, proof, now) is Some,
{
}

/// A claim never takes a campaign's claimed total above its total.
pub proof fn law_claims_within_total(
    w: WhitelistContract,
    campaign_id: u32,
    claimant: u64,
    claimant_xdr: Seq<u8>,
    amount: i128,
    proof: Seq<Seq<u8>>,
    now: u64,
)
    requires
        w.claim_error(campaign_id, claimant, claimant_xdr, amount, proof, now) is None,
    ensures
        w.campaign_map()[campaign_id as u64].claimed_amount + amount <= w.campaign_map()[campaign_id as u64].total_amount,
{
}

/// After its refund a campaign accepts no claim and no second refund.
pub proof fn law_refund_closes(
    w: WhitelistContract,
    campaign_id: u32,
    claimant: u64,
    claimant_xdr: Seq<u8>,
    amount: i128,
    proof: Seq<Seq<u8>>,
    now: u64,
)
    requires
        w.campaign_map().dom().contains(campaign_id as u64),
        w.campaign_map()[campaign_id as u64].refunded,
        !w.campaign_map()[campaign_id as u64].is_active,
    ensures
        w.claim_error(campaign_id, claimant, claimant_xdr, amount, proof, now) is Some,
        w.refund_error(campaign_id, now) is Some,
{
}

/// Byte strings are totally and strictly ordered by `bytes_lt`.
proof fn lemma_bytes_lt_total(a: Seq<u8>, b: Seq<u8>)
    ensures
        bytes_lt(a, b) ==> !bytes_lt(b, a),
        a != b ==> bytes_lt(a, b) || bytes_lt(b, a),
    decreases a.len(),
{
    if a.len() > 0 && b.len() > 0 && a[0] == b[0] {
        lemma_bytes_lt_total(a.drop_first(), b.drop_first());
        if a.drop_first() == b.drop_first() {
            assert(a =~= seq![a[0]] + a.drop_first());
            assert(b =~= seq![b[0]] + b.drop_first());
        }
    } else if a.len() == 0 && b.len() == 0 {
        assert(a =~= b);
    }
}

/// Hashing a pair does not depend on the order of the two nodes.
pub proof fn law_hash_pair_symmetric(a: Seq<u8>, b: Seq<u8>)
    ensures
        hash_pair(a, b) == hash_pair(b, a),
{
    lemma_bytes_lt_total(a, b);
}

/// A proof path is read from the leaf upward: the empty path leaves the leaf, the
/// first node of the path is paired with the leaf, and the rest of the path continues
/// from that pair.
pub proof fn law_merkle_path_from_leaf(leaf: Seq<u8>, first: Seq<u8>, rest: Seq<Seq<u8>>)
    ensures
        merkle_root(leaf, Seq::<Seq<u8>>::empty()) == leaf,
        merkle_root(leaf, seq![first]) == hash_pair(leaf, first),
        merkle_root(leaf, seq![first] + rest) == merkle_root(hash_pair(leaf, first), rest),
    decreases rest.len(),
{
    let single = seq![first];
    assert(single.drop_last() =~= Seq::<Seq<u8>>::empty());
    assert(merkle_root(leaf, single.drop_last()) == leaf);
    assert(single.last() == first);
    assert(merkle_root(leaf, single) == hash_pair(leaf, first));
    let h = hash_pair(leaf, first);
    if rest.len() > 0 {
        law_merkle_path_from_leaf(leaf, first, rest.drop_last());
        let whole = single + rest;
        assert(whole.drop_last() =~= single + rest.drop_last());
        assert(whole.last() == rest.last());
        assert(merkle_root(leaf, whole) == hash_pair(
            merkle_root(leaf, single + rest.drop_last()),
            rest.last(),
        ));
        assert(merkle_root(h, rest) == hash_pair(merkle_root(h, rest.drop_last()), rest.last()));
    } else {
        assert(single + rest =~= single);
        assert(merkle_root(h, rest) == h);
    }
}

/// In a tree of four leaves, each leaf's standard proof (its sibling, then the other
/// pair's node) leads to the root.
pub proof fn law_four_leaf_proofs(a: Seq<u8>, b: Seq<u8>, c: Seq<u8>, d: Seq<u8>)
    ensures
        merkle_root(a, seq![b, hash_pair(c, d)]) == hash_pair(hash_pair(a, b), hash_pair(c, d)),
        merkle_root(b, seq![a, hash_pair(c, d)]) == hash_pair(hash_pair(a, b), hash_pair(c, d)),
        merkle_root(c, seq![d, hash_pair(a, b)]) == hash_pair(hash_pair(a, b), hash_pair(c, d)),
        merkle_root(d, seq![c, hash_pair(a, b)]) == hash_pair(hash_pair(a, b), hash_pair(c, d)),
{
    let ab = hash_pair(a, b);
    let cd = hash_pair(c, d);
    law_hash_pair_symmetric(a, b);
    law_hash_pair_symmetric(c, d);
    law_hash_pair_symmetric(ab, cd);
    law_merkle_path_from_leaf(a, b, seq![cd]);
    law_merkle_path_from_leaf(b, a, seq![cd]);
    law_merkle_path_from_leaf(c, d, seq![ab]);
    law_merkle_path_from_leaf(d, c, seq![ab]);
    law_merkle_path_from_leaf(ab, cd, Seq::empty());
    law_merkle_path_from_leaf(cd, ab, Seq::empty());
    assert(seq![b, cd] =~= seq![b] + seq![cd]);
    assert(seq![a, cd] =~= seq![a] + seq![cd]);
    assert(seq![d, ab] =~= seq![d] + seq![ab]);
    assert(seq![c, ab] =~= seq![c] + seq![ab]);
}

} // verus!
