//! The identity registry: decentralized identifiers (DIDs) for accounts, with claims
//! that verifiers confirm, delegations of rights, and a reputation score that grows
//! with verified claims and event attendance. Authorization and events are the
//! host's; on any error an operation leaves the state as it was.
use vstd::prelude::*;
use crate::crypto::{sha256, sha256_digest, le_bytes, push_le};
use crate::bytes::copy_bytes;
use crate::table::{Table, StrTable};
use crate::access::{RoleSet, str_eq};

verus! {

/// The largest number of claims a DID holds.
pub const MAX_CLAIMS_PER_DID: usize = 50;

/// The largest number of delegations a DID holds.
pub const MAX_DELEGATIONS_PER_DID: usize = 10;

/// The reputation of a new DID.
pub const REPUTATION_BASE_SCORE: u32 = 100;

/// The most that one event attendance adds to a reputation.
pub const EVENT_ATTENDANCE_SCORE: u32 = 50;

/// What a verified claim adds to a reputation.
pub const VERIFIED_CREDENTIAL_SCORE: u32 = 30;

/// A claim attached to a DID (an account elsewhere, an e-mail address, ...).
pub struct Claim {
    pub id: u32,
    pub claim_type: String,
    pub claim_value: String,
    pub issuer: u64,
    pub issued_at: u64,
    pub verified: bool,
    pub proof: Vec<u8>,
    pub revoked: bool,
}

/// The value of a claim.
pub struct ClaimView {
    pub id: u32,
    pub claim_type: Seq<char>,
    pub claim_value: Seq<char>,
    pub issuer: u64,
    pub issued_at: u64,
    pub verified: bool,
    pub proof: Seq<u8>,
    pub revoked: bool,
}

impl View for Claim {
    type V = ClaimView;

    open spec fn view(&self) -> ClaimView {
        ClaimView {
            id: self.id,
            claim_type: self.claim_type@,
            claim_value: self.claim_value@,
            issuer: self.issuer,
            issued_at: self.issued_at,
            verified: self.verified,
            proof: self.proof@,
            revoked: self.revoked,
        }
    }
}

impl Claim {
    /// A copy of the claim.
    pub fn copy(&self) -> (r: Self)
        ensures
            r@ == self@,
    {
        Claim {
            id: self.id,
            claim_type: self.claim_type.clone(),
            claim_value: self.claim_value.clone(),
            issuer: self.issuer,
            issued_at: self.issued_at,
            verified: self.verified,
            proof: copy_bytes(&self.proof),
            revoked: self.revoked,
        }
    }
}

/// The values of a list of claims.
pub open spec fn claims_view(c: Seq<Claim>) -> Seq<ClaimView> {
    c.map_values(|x: Claim| x@)
}

/// A copy of a list of claims.
pub fn copy_claims(v: &Vec<Claim>) -> (r: Vec<Claim>)
    ensures
        claims_view(r@) == claims_view(v@),
{
    let mut r: Vec<Claim> = Vec::new();
    let mut i: usize = 0;
    while i < v.len()
        invariant
            i <= v@.len(),
            r@.len() == i,
            forall|j: int| 0 <= j < i ==> #[trigger] r@[j]@ == v@[j]@,
        decreases v@.len() - i,
    {
        r.push(v[i].copy());
        i = i + 1;
    }
    assert(claims_view(r@) =~= claims_view(v@));
    r
}

/// The document of a DID.
pub struct DIDDocument {
    pub id: String,
    pub controller: u64,
    pub public_key: Vec<u8>,
    pub created: u64,
    pub updated: u64,
    pub deactivated: bool,
    pub claims: Vec<Claim>,
    pub reputation_score: u32,
}

/// The value of a DID document.
pub struct DidView {
    pub id: Seq<char>,
    pub controller: u64,
    pub public_key: Seq<u8>,
    pub created: u64,
    pub updated: u64,
    pub deactivated: bool,
    pub claims: Seq<ClaimView>,
    pub reputation_score: u32,
}

impl View for DIDDocument {
    type V = DidView;

    open spec fn view(&self) -> DidView {
        DidView {
            id: self.id@,
            controller: self.controller,
            public_key: self.public_key@,
            created: self.created,
            updated: self.updated,
            deactivated: self.deactivated,
            claims: claims_view(self.claims@),
            reputation_score: self.reputation_score,
        }
    }
}

impl DIDDocument {
    /// A copy of the document.
    pub fn copy(&self) -> (r: Self)
        ensures
            r@ == self@,
    {
        DIDDocument {
            id: self.id.clone(),
            controller: self.controller,
            public_key: copy_bytes(&self.public_key),
            created: self.created,
            updated: self.updated,
            deactivated: self.deactivated,
            claims: copy_claims(&self.claims),
            reputation_score: self.reputation_score,
        }
    }
}

/// A credential issued to a DID.
pub struct Credential {
    pub id: String,
    /// The DID the credential belongs to.
    pub did: String,
    pub credential_type: String,
    /// The DID of the issuer.
    pub issuer: String,
    pub issued_at: u64,
    pub expires_at: u64,
    /// The credential's data, encrypted.
    pub credential_data: Vec<u8>,
    pub verified: bool,
    pub revoked: bool,
}

/// Rights that a DID's controller delegated to another account.
pub struct Delegation {
    pub delegate: u64,
    pub permissions: Vec<String>,
    pub created_at: u64,
    pub expiry: u64,
    pub revoked: bool,
}

/// The names of a list of permissions.
pub open spec fn perms_view(p: Seq<String>) -> Seq<Seq<char>> {
    p.map_values(|x: String| x@)
}

/// The value of a delegation.
pub struct DelegationView {
    pub delegate: u64,
    pub permissions: Seq<Seq<char>>,
    pub created_at: u64,
    pub expiry: u64,
    pub revoked: bool,
}

impl View for Delegation {
    type V = DelegationView;

    open spec fn view(&self) -> DelegationView {
        DelegationView {
            delegate: self.delegate,
            permissions: perms_view(self.permissions@),
            created_at: self.created_at,
            expiry: self.expiry,
            revoked: self.revoked,
        }
    }
}

/// The record of a revoked claim.
pub struct Revocation {
    pub claim_id: u32,
    pub revoked_at: u64,
    pub revoked_by: u64,
    pub reason: String,
}

/// Errors of the identity registry.
#[derive(Debug, Clone, Copy, PartialEq, Eq, Structural)]
pub enum IdentityError {
    AlreadyInitialized,
    NotInitialized,
    ContractPaused,
    NotAuthorized,
    DidExists,
    DidNotFound,
    ClaimNotFound,
    MaxClaimsReached,
    ClaimAlreadyVerified,
    ClaimRevoked,
    ClaimAlreadyRevoked,
    NoDelegation,
    DelegationRevoked,
    DelegationExpired,
    PermissionNotGranted,
    DelegationExists,
    DelegationNotFound,
    MaxDelegationsReached,
    Overflow,
}

/// The lower-case hexadecimal digits.
pub open spec fn hex_digits() -> Seq<char> {
    seq!['0', '1', '2', '3', '4', '5', '6', '7', '8', '9', 'a', 'b', 'c', 'd', 'e', 'f']
}

/// The lower-case hexadecimal spelling of a byte string, two digits a byte.
pub open spec fn hex(b: Seq<u8>) -> Seq<char>
    decreases b.len(),
{
    if b.len() == 0 {
        Seq::empty()
    } else {
        hex(b.drop_last()) + seq![hex_digits()[(b.last() / 16) as int], hex_digits()[(b.last() % 16) as int]]
    }
}

/// The DID of an account: `did:stellar:` followed by the hexadecimal digest of the
/// account's 8-byte encoding.
pub open spec fn did_of(user: u64) -> Seq<char> {
    "did:stellar:"@ + hex(sha256_digest(le_bytes(user as nat, 8)))
}

/// Appends the hexadecimal digit of `n`.
fn push_hex_digit(s: &mut String, n: u8)
    requires
        n < 16,
    ensures
        final(s)@ == old(s)@.push(hex_digits()[n as int]),
{
    let digits = "0123456789abcdef";
    proof {
        reveal_strlit("0123456789abcdef");
    }
    assert(digits@ == hex_digits());
    let d = digits.substring_char(n as usize, n as usize + 1);
    assert(d@ =~= seq![hex_digits()[n as int]]);
    s.append(d);
}

/// Generates the DID of an account (see `did_of`).
pub fn generate_did(env: &soroban_sdk::Env, user: u64) -> (r: String)
    ensures
        r@ == did_of(user),
{
    let mut bytes: Vec<u8> = Vec::new();
    push_le(&mut bytes, user as u128, 8);
    assert(bytes@ =~= Seq::<u8>::empty() + le_bytes(user as nat, 8));
    let hash = sha256(env, &bytes);
    let mut s = String::from_str("did:stellar:");
    proof {
        reveal_strlit("did:stellar:");
    }
    let ghost prefix = s@;
    let mut i: usize = 0;
    assert(hash@.take(0) =~= Seq::<u8>::empty());
    while i < hash.len()
        invariant
            i <= hash@.len(),
            s@ == prefix + hex(hash@.take(i as int)),
        decreases hash@.len() - i,
    {
        let b = hash[i];
        push_hex_digit(&mut s, b / 16);
        push_hex_digit(&mut s, b % 16);
        assert(hash@.take(i + 1).drop_last() =~= hash@.take(i as int));
        i = i + 1;
        assert(s@ =~= prefix + hex(hash@.take(i as int)));
    }
    assert(hash@.take(i as int) =~= hash@);
    s
}

/// The position of the first claim with id `id`.
pub open spec fn claim_pos(c: Seq<ClaimView>, id: u32) -> Option<int>
    decreases c.len(),
{
    if c.len() == 0 {
        None
    } else if c[0].id == id {
        Some(0)
    } else {
        match claim_pos(c.drop_first(), id) {
            Some(j) => Some(j + 1),
            None => None,
        }
    }
}

proof fn lemma_claim_pos(c: Seq<ClaimView>, id: u32)
    ensures
        claim_pos(c, id) matches Some(j) ==> 0 <= j < c.len() && c[j].id == id && forall|q: int|
            0 <= q < j ==> #[trigger] c[q].id != id,
        claim_pos(c, id) is None ==> forall|q: int| 0 <= q < c.len() ==> #[trigger] c[q].id != id,
    decreases c.len(),
{
    if c.len() > 0 {
        lemma_claim_pos(c.drop_first(), id);
        assert forall|q: int| 0 < q < c.len() implies c[q] == c.drop_first()[q - 1] by {}
    }
}

/// The index of the first claim with id `id`.
fn find_claim(claims: &Vec<Claim>, id: u32) -> (r: Option<usize>)
    ensures
        match r {
            Some(i) => claim_pos(claims_view(claims@), id) == Some(i as int) && i < claims@.len(),
            None => claim_pos(claims_view(claims@), id) is None,
        },
{
    let ghost c = claims_view(claims@);
    proof {
        lemma_claim_pos(c, id);
    }
    let mut i: usize = 0;
    while i < claims.len()
        invariant
            i <= claims@.len(),
            c == claims_view(claims@),
            forall|q: int| 0 <= q < i ==> #[trigger] c[q].id != id,
        decreases claims@.len() - i,
    {
        assert(c[i as int] == claims@[i as int]@);
        if claims[i].id == id {
            proof {
                lemma_claim_pos(c, id);
                match claim_pos(c, id) {
                    Some(j) => {
                        if j < i {
                            assert(c[j].id != id);
                        } else if j > i {
                            assert(c[i as int].id != id);
                        }
                    },
                    None => {
                        assert(c[i as int].id != id);
                    },
                }
            }
            return Some(i);
        }
        i = i + 1;
    }
    proof {
        lemma_claim_pos(c, id);
        match claim_pos(c, id) {
            Some(j) => {
                assert(c[j].id != id);
            },
            None => {},
        }
    }
    None
}

/// What one attendance adds to a reputation: the score, capped at the attendance
/// score.
pub open spec fn attendance_increment(score: u32) -> u32 {
    if score < EVENT_ATTENDANCE_SCORE {
        score
    } else {
        EVENT_ATTENDANCE_SCORE
    }
}

/// The name of the administrator role.
pub open spec fn admin_role() -> Seq<char> {
    "ADMIN"@
}

/// The name of the verifier role.
pub open spec fn verifier_role() -> Seq<char> {
    "VERIFIER"@
}

/// The state of the identity registry.
pub struct IdentityRegistryContract {
    pub initialized: bool,
    pub paused: bool,
    pub total_dids: u32,
    pub next_claim_id: u32,
    /// The documents, by DID.
    pub dids: StrTable<DIDDocument>,
    /// The DID of each account.
    pub address_to_did: Table<String>,
    /// The delegations of each DID, by delegate.
    pub delegations: StrTable<Table<Delegation>>,
    /// The revocation records of each DID, by claim id.
    pub revocations: StrTable<Table<Revocation>>,
    /// When each DID attended each event, by DID then event.
    pub attendance: StrTable<StrTable<u64>>,
    pub roles: RoleSet,
}

impl IdentityRegistryContract {
    /// The documents, by DID.
    pub open spec fn docs(self) -> Map<Seq<char>, DidView> {
        self.dids.map().map_values(|d: DIDDocument| d@)
    }

    /// The delegations of a DID, by delegate.
    pub open spec fn delegations_of(self, did: Seq<char>) -> Map<u64, DelegationView> {
        if self.delegations.map().dom().contains(did) {
            self.delegations.map()[did].map().map_values(|d: Delegation| d@)
        } else {
            Map::empty()
        }
    }

    /// The number of delegations recorded for a DID.
    pub open spec fn delegation_count(self, did: Seq<char>) -> nat {
        if self.delegations.map().dom().contains(did) {
            self.delegations.map()[did].entries@.len()
        } else {
            0
        }
    }

    /// Whether `account` may confirm claims and record attendance.
    pub open spec fn is_verifier(self, account: u64) -> bool {
        self.roles.holds(admin_role(), account) || self.roles.holds(verifier_role(), account)
    }

    /// The invariant: the tables are well formed.
    pub open spec fn wf(self) -> bool {
        &&& self.dids.wf()
        &&& self.address_to_did.wf()
        &&& self.delegations.wf()
        &&& self.revocations.wf()
        &&& self.attendance.wf()
        &&& forall|k: Seq<char>| #[trigger]
            self.delegations.map().dom().contains(k) ==> self.delegations.map()[k].wf()
        &&& forall|k: Seq<char>| #[trigger]
            self.revocations.map().dom().contains(k) ==> self.revocations.map()[k].wf()
        &&& forall|k: Seq<char>| #[trigger]
            self.attendance.map().dom().contains(k) ==> self.attendance.map()[k].wf()
    }

    /// A registry that has not been initialized.
    pub fn new() -> (r: Self)
        ensures
            r.wf(),
            !r.initialized,
            !r.paused,
            r.docs() == Map::<Seq<char>, DidView>::empty(),
            r.total_dids == 0,
            r.next_claim_id == 1,
            r.address_to_did.map() == Map::<u64, String>::empty(),
            r.delegations.map() == Map::<Seq<char>, Table<Delegation>>::empty(),
            r.revocations.map() == Map::<Seq<char>, Table<Revocation>>::empty(),
            r.attendance.map() == Map::<Seq<char>, StrTable<u64>>::empty(),
            r.roles.view_set() == Set::<(Seq<char>, u64)>::empty(),
    {
        let r = IdentityRegistryContract {
            initialized: false,
            paused: false,
            total_dids: 0,
            next_claim_id: 1,
            dids: StrTable::new(),
            address_to_did: Table::new(),
            delegations: StrTable::new(),
            revocations: StrTable::new(),
            attendance: StrTable::new(),
            roles: RoleSet::new(),
        };
        assert(r.docs() =~= Map::<Seq<char>, DidView>::empty());
        r
    }

    /// Initializes the registry and grants the administrator role to `admin`. Errors: a
    /// registry already initialized.
    pub fn initialize(&mut self, admin: u64) -> (r: Result<(), IdentityError>)
        requires
            old(self).wf(),
        ensures
            final(self).wf(),
            old(self).initialized <==> r is Err,
            r is Err ==> r == Err::<(), IdentityError>(IdentityError::AlreadyInitialized),
            r is Err ==> *final(self) == *old(self),
            r is Ok ==> {
                &&& final(self).initialized && !final(self).paused
                &&& final(self).total_dids == 0
                &&& final(self).roles.view_set() == old(self).roles.view_set().insert(
                    (admin_role(), admin),
                )
                &&& final(self).dids == old(self).dids
            },
    {
        if self.initialized {
            return Err(IdentityError::AlreadyInitialized);
        }
        self.initialized = true;
        self.paused = false;
        self.total_dids = 0;
        let role = String::from_str("ADMIN");
        proof {
            reveal_strlit("ADMIN");
        }
        self.roles.grant(role, admin);
        Ok(())
    }

    /// What creating a DID fails with, if anything, in this order: a registry not
    /// initialized, paused; a DID that exists; a DID count at `u32::MAX`.
    pub open spec fn create_error(self, user: u64) -> Option<IdentityError> {
        if !self.initialized {
            Some(IdentityError::NotInitialized)
        } else if self.paused {
            Some(IdentityError::ContractPaused)
        } else if self.docs().dom().contains(did_of(user)) {
            Some(IdentityError::DidExists)
        } else if self.total_dids == u32::MAX {
            Some(IdentityError::Overflow)
        } else {
            None
        }
    }

    /// Creates the DID of `user` (see `did_of`): a document controlled by `user`, with
    /// no claims and the base reputation. Errors: see `create_error`.
    pub fn create_did(&mut self, env: &soroban_sdk::Env, user: u64, public_key: Vec<u8>, now: u64)
        -> (r: Result<String, IdentityError>)
        requires
            old(self).wf(),
        ensures
            final(self).wf(),
            r is Err <==> old(self).create_error(user) is Some,
            r matches Err(e) ==> old(self).create_error(user) == Some(e),
            r is Err ==> *final(self) == *old(self),
            r matches Ok(did) ==> {
                &&& did@ == did_of(user)
                &&& final(self).docs() == old(self).docs().insert(
                    did@,
                    DidView {
                        id: did@,
                        controller: user,
                        public_key: public_key@,
                        created: now,
                        updated: now,
                        deactivated: false,
                        claims: Seq::empty(),
                        reputation_score: REPUTATION_BASE_SCORE,
                    },
                )
                &&& final(self).address_to_did.map().dom().contains(user)
                &&& final(self).address_to_did.map()[user]@ == did@
                &&& final(self).total_dids == old(self).total_dids + 1
                &&& final(self).roles == old(self).roles
                &&& final(self).delegations == old(self).delegations
            },
    {
        if !self.initialized {
            return Err(IdentityError::NotInitialized);
        }
        if self.paused {
            return Err(IdentityError::ContractPaused);
        }
        let did = generate_did(env, user);
        if self.dids.contains_key(&did) {
            return Err(IdentityError::DidExists);
        }
        if self.total_dids == u32::MAX {
            return Err(IdentityError::Overflow);
        }
        let claims: Vec<Claim> = Vec::new();
        let doc = DIDDocument {
            id: did.clone(),
            controller: user,
            public_key,
            created: now,
            updated: now,
            deactivated: false,
            claims,
            reputation_score: REPUTATION_BASE_SCORE,
        };
        assert(claims_view(doc.claims@) =~= Seq::<ClaimView>::empty());
        let ghost dv = doc@;
        let ghost old_d = self.docs();
        self.dids.push_new(did.clone(), doc);
        assert(self.docs() =~= old_d.insert(did@, dv));
        self.address_to_did.insert(user, did.clone());
        self.total_dids = self.total_dids + 1;
        Ok(did)
    }

    /// What the delegation check of `caller` for `perm` fails with, if anything: no
    /// delegation, a revoked one, an expired one, one without the permission.
    pub open spec fn delegation_error(self, did: Seq<char>, caller: u64, perm: Seq<char>, now: u64)
        -> Option<IdentityError> {
        let ds = self.delegations_of(did);
        if !ds.dom().contains(caller) {
            Some(IdentityError::NoDelegation)
        } else if ds[caller].revoked {
            Some(IdentityError::DelegationRevoked)
        } else if ds[caller].expiry < now {
            Some(IdentityError::DelegationExpired)
        } else if !ds[caller].permissions.contains(perm) {
            Some(IdentityError::PermissionNotGranted)
        } else {
            None
        }
    }

    /// Checks that `caller` holds a live delegation of `did` with permission `perm`.
    #[verifier::loop_isolation(false)]
    fn check_delegation(&self, did: &String, caller: u64, perm: &String, now: u64) -> (r: Result<
        (),
        IdentityError,
    >)
        requires
            self.wf(),
        ensures
            match r {
                Ok(()) => self.delegation_error(did@, caller, perm@, now) is None,
                Err(e) => self.delegation_error(did@, caller, perm@, now) == Some(e),
            },
    {
        let i = match self.delegations.find(did) {
            Some(i) => i,
            None => {
                return Err(IdentityError::NoDelegation);
            },
        };
        let inner = &self.delegations.entries[i].1;
        assert(self.delegations.map()[did@] == *inner);
        let j = match inner.find(caller) {
            Some(j) => j,
            None => {
                return Err(IdentityError::NoDelegation);
            },
        };
        let d = &inner.entries[j].1;
        assert(self.delegations_of(did@)[caller] == d@);
        if d.revoked {
            return Err(IdentityError::DelegationRevoked);
        }
        if d.expiry < now {
            return Err(IdentityError::DelegationExpired);
        }
        let mut k: usize = 0;
        while k < d.permissions.len()
            invariant
                k <= d.permissions@.len(),
                forall|q: int| 0 <= q < k ==> #[trigger] d.permissions@[q]@ != perm@,
            decreases d.permissions@.len() - k,
        {
            if str_eq(&d.permissions[k], perm) {
                assert(perms_view(d.permissions@)[k as int] == perm@);
                return Ok(());
            }
            k = k + 1;
        }
        assert forall|q: int| 0 <= q < d.permissions@.len() implies #[trigger] perms_view(
            d.permissions@,
        )[q] != perm@ by {
            assert(perms_view(d.permissions@)[q] == d.permissions@[q]@);
        }
        Err(IdentityError::PermissionNotGranted)
    }

    /// What adding a claim fails with, if anything, in this order: an unknown DID; a
    /// caller other than the controller without a live `add_claim` delegation; a
    /// registry not initialized, paused; a DID at its claim limit; claim ids exhausted.
    pub open spec fn add_claim_error(self, did: Seq<char>, caller: u64, now: u64) -> Option<
        IdentityError,
    > {
        let d = self.docs()[did];
        if !self.docs().dom().contains(did) {
            Some(IdentityError::DidNotFound)
        } else if caller != d.controller && self.delegation_error(did, caller, "add_claim"@, now)
            is Some {
            self.delegation_error(did, caller, "add_claim"@, now)
        } else if !self.initialized {
            Some(IdentityError::NotInitialized)
        } else if self.paused {
            Some(IdentityError::ContractPaused)
        } else if d.claims.len() >= MAX_CLAIMS_PER_DID {
            Some(IdentityError::MaxClaimsReached)
        } else if self.next_claim_id == u32::MAX {
            Some(IdentityError::Overflow)
        } else {
            None
        }
    }

    /// Adds an unverified claim to a DID, issued by `caller` (its controller or a
    /// delegate with the `add_claim` permission), under the next claim id. Errors: see
    /// `add_claim_error`.
    pub fn add_claim(
        &mut self,
        did: &String,
        claim_type: String,
        claim_value: String,
        proof: Vec<u8>,
        caller: u64,
        now: u64,
    ) -> (r: Result<u32, IdentityError>)
        requires
            old(self).wf(),
        ensures
            final(self).wf(),
            r is Err <==> old(self).add_claim_error(did@, caller, now) is Some,
            r matches Err(e) ==> old(self).add_claim_error(did@, caller, now) == Some(e),
            r is Err ==> *final(self) == *old(self),
            r matches Ok(id) ==> {
                let d = old(self).docs()[did@];
                &&& id == old(self).next_claim_id
                &&& final(self).next_claim_id == id + 1
                &&& final(self).docs() == old(self).docs().insert(
                    did@,
                    DidView {
                        claims: d.claims.push(
                            ClaimView {
                                id,
                                claim_type: claim_type@,
                                claim_value: claim_value@,
                                issuer: caller,
                                issued_at: now,
                                verified: false,
                                proof: proof@,
                                revoked: false,
                            },
                        ),
                        updated: now,
                        ..d
                    },
                )
                &&& final(self).roles == old(self).roles
                &&& final(self).delegations == old(self).delegations
                &&& final(self).total_dids == old(self).total_dids
            },
    {
        let i = match self.dids.find(did) {
            Some(i) => i,
            None => {
                return Err(IdentityError::DidNotFound);
            },
        };
        let mut doc = self.dids.entries[i].1.copy();
        if caller != doc.controller {
            let perm = String::from_str("add_claim");
            proof {
                reveal_strlit("add_claim");
            }
            match self.check_delegation(did, caller, &perm, now) {
                Err(e) => {
                    return Err(e);
                },
                Ok(()) => {},
            }
        }
        if !self.initialized {
            return Err(IdentityError::NotInitialized);
        }
        if self.paused {
            return Err(IdentityError::ContractPaused);
        }
        if doc.claims.len() >= MAX_CLAIMS_PER_DID {
            return Err(IdentityError::MaxClaimsReached);
        }
        if self.next_claim_id == u32::MAX {
            return Err(IdentityError::Overflow);
        }
        let id = self.next_claim_id;
        let ghost c0 = claims_view(doc.claims@);
        doc.claims.push(
            Claim {
                id,
                claim_type,
                claim_value,
                issuer: caller,
                issued_at: now,
                verified: false,
                proof,
                revoked: false,
            },
        );
        assert(claims_view(doc.claims@) =~= c0.push(doc.claims@.last()@));
        doc.updated = now;
        let ghost dv = doc@;
        let ghost old_d = self.docs();
        self.dids.set_at(i, doc);
        assert(self.docs() =~= old_d.insert(did@, dv));
        self.next_claim_id = id + 1;
        Ok(id)
    }

    /// What verifying a claim fails with, if anything, in this order: a caller without
    /// the administrator or verifier role; an unknown DID; an unknown claim; a claim
    /// already verified; a revoked claim; a reputation at its limit.
    pub open spec fn verify_error(self, admin: u64, did: Seq<char>, claim_id: u32) -> Option<
        IdentityError,
    > {
        let d = self.docs()[did];
        let j = claim_pos(d.claims, claim_id).unwrap();
        if !self.is_verifier(admin) {
            Some(IdentityError::NotAuthorized)
        } else if !self.docs().dom().contains(did) {
            Some(IdentityError::DidNotFound)
        } else if claim_pos(d.claims, claim_id) is None {
            Some(IdentityError::ClaimNotFound)
        } else if d.claims[j].verified {
            Some(IdentityError::ClaimAlreadyVerified)
        } else if d.claims[j].revoked {
            Some(IdentityError::ClaimRevoked)
        } else if d.reputation_score + VERIFIED_CREDENTIAL_SCORE > u32::MAX {
            Some(IdentityError::Overflow)
        } else {
            None
        }
    }

    /// Marks a claim verified, on the word of an administrator or verifier, and adds
    /// the verified-credential score to the reputation. Errors: see `verify_error`.
    pub fn verify_claim(&mut self, admin: u64, did: &String, claim_id: u32, now: u64) -> (r: Result<
        (),
        IdentityError,
    >)
        requires
            old(self).wf(),
        ensures
            final(self).wf(),
            r is Err <==> old(self).verify_error(admin, did@, claim_id) is Some,
            r matches Err(e) ==> old(self).verify_error(admin, did@, claim_id) == Some(e),
            r is Err ==> *final(self) == *old(self),
            r is Ok ==> {
                let d = old(self).docs()[did@];
                let j = claim_pos(d.claims, claim_id).unwrap();
                &&& final(self).docs() == old(self).docs().insert(
                    did@,
                    DidView {
                        claims: d.claims.update(j, ClaimView { verified: true, ..d.claims[j] }),
                        reputation_score: (d.reputation_score + VERIFIED_CREDENTIAL_SCORE) as u32,
                        updated: now,
                        ..d
                    },
                )
                &&& *final(self) == (IdentityRegistryContract { dids: final(self).dids, ..*old(self) })
            },
    {
        let a = String::from_str("ADMIN");
        let v = String::from_str("VERIFIER");
        proof {
            reveal_strlit("ADMIN");
            reveal_strlit("VERIFIER");
        }
        if !self.roles.has_role(&a, admin) && !self.roles.has_role(&v, admin) {
            return Err(IdentityError::NotAuthorized);
        }
        let i = match self.dids.find(did) {
            Some(i) => i,
            None => {
                return Err(IdentityError::DidNotFound);
            },
        };
        let mut doc = self.dids.entries[i].1.copy();
        let j = match find_claim(&doc.claims, claim_id) {
            Some(j) => j,
            None => {
                return Err(IdentityError::ClaimNotFound);
            },
        };
        assert(claims_view(doc.claims@)[j as int] == doc.claims@[j as int]@);
        if doc.claims[j].verified {
            return Err(IdentityError::ClaimAlreadyVerified);
        }
        if doc.claims[j].revoked {
            return Err(IdentityError::ClaimRevoked);
        }
        if doc.reputation_score > u32::MAX - VERIFIED_CREDENTIAL_SCORE {
            return Err(IdentityError::Overflow);
        }
        let ghost c0 = claims_view(doc.claims@);
        let mut c = doc.claims.remove(j);
        c.verified = true;
        doc.claims.insert(j, c);
        assert(claims_view(doc.claims@) =~= c0.update(j as int, ClaimView { verified: true, ..c0[j as int] }));
        doc.reputation_score = doc.reputation_score + VERIFIED_CREDENTIAL_SCORE;
        doc.updated = now;
        let ghost dv = doc@;
        let ghost old_d = self.docs();
        self.dids.set_at(i, doc);
        assert(self.docs() =~= old_d.insert(did@, dv));
        Ok(())
    }

    /// What revoking a claim fails with, if anything, in this order: an unknown DID; a
    /// caller other than the controller and the administrator without a live
    /// `revoke_claim` delegation; an unknown claim; a claim already revoked.
    pub open spec fn revoke_claim_error(self, did: Seq<char>, claim_id: u32, caller: u64, now: u64)
        -> Option<IdentityError> {
        let d = self.docs()[did];
        let j = claim_pos(d.claims, claim_id).unwrap();
        if !self.docs().dom().contains(did) {
            Some(IdentityError::DidNotFound)
        } else if caller != d.controller && !self.roles.holds(admin_role(), caller)
            && self.delegation_error(did, caller, "revoke_claim"@, now) is Some {
            self.delegation_error(did, caller, "revoke_claim"@, now)
        } else if claim_pos(d.claims, claim_id) is None {
            Some(IdentityError::ClaimNotFound)
        } else if d.claims[j].revoked {
            Some(IdentityError::ClaimAlreadyRevoked)
        } else {
            None
        }
    }

    /// Revokes a claim on behalf of its DID's controller, the administrator or a
    /// delegate with the `revoke_claim` permission, and records why. Errors: see
    /// `revoke_claim_error`.
    pub fn revoke_claim(&mut self, did: &String, claim_id: u32, reason: String, caller: u64, now: u64)
        -> (r: Result<(), IdentityError>)
        requires
            old(self).wf(),
        ensures
            final(self).wf(),
            r is Err <==> old(self).revoke_claim_error(did@, claim_id, caller, now) is Some,
            r matches Err(e) ==> old(self).revoke_claim_error(did@, claim_id, caller, now) == Some(e),
            r is Err ==> *final(self) == *old(self),
            r is Ok ==> {
                let d = old(self).docs()[did@];
                let j = claim_pos(d.claims, claim_id).unwrap();
                &&& final(self).docs() == old(self).docs().insert(
                    did@,
                    DidView {
                        claims: d.claims.update(j, ClaimView { revoked: true, ..d.claims[j] }),
                        updated: now,
                        ..d
                    },
                )
                &&& final(self).revocations.map().dom().contains(did@)
                &&& final(self).revocations.map()[did@].map().dom().contains(claim_id as u64)
                &&& final(self).revocations.map()[did@].map()[claim_id as u64].revoked_by == caller
                &&& final(self).revocations.map()[did@].map()[claim_id as u64].revoked_at == now
                &&& final(self).revocations.map()[did@].map()[claim_id as u64].reason@ == reason@
                &&& final(self).roles == old(self).roles
                &&& final(self).delegations == old(self).delegations
            },
    {
        let i = match self.dids.find(did) {
            Some(i) => i,
            None => {
                return Err(IdentityError::DidNotFound);
            },
        };
        let mut doc = self.dids.entries[i].1.copy();
        let a = String::from_str("ADMIN");
        proof {
            reveal_strlit("ADMIN");
        }
        if caller != doc.controller && !self.roles.has_role(&a, caller) {
            let perm = String::from_str("revoke_claim");
            proof {
                reveal_strlit("revoke_claim");
            }
            match self.check_delegation(did, caller, &perm, now) {
                Err(e) => {
                    return Err(e);
                },
                Ok(()) => {},
            }
        }
        let j = match find_claim(&doc.claims, claim_id) {
            Some(j) => j,
            None => {
                return Err(IdentityError::ClaimNotFound);
            },
        };
        assert(claims_view(doc.claims@)[j as int] == doc.claims@[j as int]@);
        if doc.claims[j].revoked {
            return Err(IdentityError::ClaimAlreadyRevoked);
        }
        let ghost c0 = claims_view(doc.claims@);
        let mut c = doc.claims.remove(j);
        c.revoked = true;
        doc.claims.insert(j, c);
        assert(claims_view(doc.claims@) =~= c0.update(j as int, ClaimView { revoked: true, ..c0[j as int] }));
        doc.updated = now;
        let ghost dv = doc@;
        let ghost old_d = self.docs();
        self.dids.set_at(i, doc);
        assert(self.docs() =~= old_d.insert(did@, dv));
        let rec = Revocation { claim_id, revoked_at: now, revoked_by: caller, reason };
        match self.revocations.find(did) {
            Some(k) => {
                let mut inner = self.revocations.replace_at(k, Table::new());
                inner.insert(claim_id as u64, rec);
                self.revocations.set_at(k, inner);
            },
            None => {
                let mut inner: Table<Revocation> = Table::new();
                inner.insert(claim_id as u64, rec);
                self.revocations.push_new(did.clone(), inner);
            },
        }
        assert forall|k: Seq<char>| #[trigger] self.revocations.map().dom().contains(k) implies self.revocations.map()[k].wf() by {
            if k != did@ {
                assert(old(self).revocations.map()[k] == self.revocations.map()[k]);
            }
        }
        Ok(())
    }

    /// What recording an attendance fails with, if anything, in this order: a caller
    /// without the administrator or verifier role; an unknown DID; a reputation that
    /// would pass `u32::MAX`.
    pub open spec fn attendance_error(self, admin: u64, did: Seq<char>, score: u32) -> Option<
        IdentityError,
    > {
        let d = self.docs()[did];
        if !self.is_verifier(admin) {
            Some(IdentityError::NotAuthorized)
        } else if !self.docs().dom().contains(did) {
            Some(IdentityError::DidNotFound)
        } else if d.reputation_score + attendance_increment(score) > u32::MAX {
            Some(IdentityError::Overflow)
        } else {
            None
        }
    }

    /// Records that a DID attended an event: its reputation grows by the score, capped
    /// at the attendance score, and the time of attendance is kept. Errors: see
    /// `attendance_error`.
    pub fn add_event_attendance(
        &mut self,
        admin: u64,
        did: &String,
        event_id: String,
        score: u32,
        now: u64,
    ) -> (r: Result<(), IdentityError>)
        requires
            old(self).wf(),
        ensures
            final(self).wf(),
            r is Err <==> old(self).attendance_error(admin, did@, score) is Some,
            r matches Err(e) ==> old(self).attendance_error(admin, did@, score) == Some(e),
            r is Err ==> *final(self) == *old(self),
            r is Ok ==> {
                let d = old(self).docs()[did@];
                &&& final(self).docs() == old(self).docs().insert(
                    did@,
                    DidView {
                        reputation_score: (d.reputation_score + attendance_increment(score)) as u32,
                        updated: now,
                        ..d
                    },
                )
                &&& final(self).attendance.map().dom().contains(did@)
                &&& final(self).attendance.map()[did@].map().dom().contains(event_id@)
                &&& final(self).attendance.map()[did@].map()[event_id@] == now
                &&& final(self).roles == old(self).roles
                &&& final(self).delegations == old(self).delegations
            },
    {
        let a = String::from_str("ADMIN");
        let v = String::from_str("VERIFIER");
        proof {
            reveal_strlit("ADMIN");
            reveal_strlit("VERIFIER");
        }
        if !self.roles.has_role(&a, admin) && !self.roles.has_role(&v, admin) {
            return Err(IdentityError::NotAuthorized);
        }
        let i = match self.dids.find(did) {
            Some(i) => i,
            None => {
                return Err(IdentityError::DidNotFound);
            },
        };
        let mut doc = self.dids.entries[i].1.copy();
        let inc = if score < EVENT_ATTENDANCE_SCORE {
            score
        } else {
            EVENT_ATTENDANCE_SCORE
        };
        if doc.reputation_score > u32::MAX - inc {
            return Err(IdentityError::Overflow);
        }
        doc.reputation_score = doc.reputation_score + inc;
        doc.updated = now;
        let ghost dv = doc@;
        let ghost old_d = self.docs();
        self.dids.set_at(i, doc);
        assert(self.docs() =~= old_d.insert(did@, dv));
        match self.attendance.find(did) {
            Some(k) => {
                let mut inner = self.attendance.replace_at(k, StrTable::new());
                inner.insert(event_id, now);
                self.attendance.set_at(k, inner);
            },
            None => {
                let mut inner: StrTable<u64> = StrTable::new();
                inner.insert(event_id, now);
                self.attendance.push_new(did.clone(), inner);
            },
        }
        assert forall|k: Seq<char>| #[trigger] self.attendance.map().dom().contains(k) implies self.attendance.map()[k].wf() by {
            if k != did@ {
                assert(old(self).attendance.map()[k] == self.attendance.map()[k]);
            }
        }
        Ok(())
    }

    /// What adding a delegation fails with, if anything, in this order: an unknown
    /// DID; a registry not initialized, paused; a delegation to the same delegate that
    /// exists; a DID at its delegation limit.
    pub open spec fn add_delegation_error(self, did: Seq<char>, delegate: u64) -> Option<
        IdentityError,
    > {
        if !self.docs().dom().contains(did) {
            Some(IdentityError::DidNotFound)
        } else if !self.initialized {
            Some(IdentityError::NotInitialized)
        } else if self.paused {
            Some(IdentityError::ContractPaused)
        } else if self.delegations_of(did).dom().contains(delegate) {
            Some(IdentityError::DelegationExists)
        } else if self.delegation_count(did) >= MAX_DELEGATIONS_PER_DID {
            Some(IdentityError::MaxDelegationsReached)
        } else {
            None
        }
    }

    /// Delegates rights over a DID to `delegate` until `expiry`. Errors: see
    /// `add_delegation_error`.
    pub fn add_delegation(
        &mut self,
        did: &String,
        delegate: u64,
        permissions: Vec<String>,
        expiry: u64,
        now: u64,
    ) -> (r: Result<(), IdentityError>)
        requires
            old(self).wf(),
        ensures
            final(self).wf(),
            r is Err <==> old(self).add_delegation_error(did@, delegate) is Some,
            r matches Err(e) ==> old(self).add_delegation_error(did@, delegate) == Some(e),
            r is Err ==> *final(self) == *old(self),
            r is Ok ==> {
                &&& final(self).delegations_of(did@) == old(self).delegations_of(did@).insert(
                    delegate,
                    DelegationView {
                        delegate,
                        permissions: perms_view(permissions@),
                        created_at: now,
                        expiry,
                        revoked: false,
                    },
                )
                &&& final(self).delegation_count(did@) == old(self).delegation_count(did@) + 1
                &&& forall|other: Seq<char>|
                    other != did@ ==> #[trigger] final(self).delegations_of(other) == old(
                        self,
                    ).delegations_of(other)
                &&& *final(self) == (IdentityRegistryContract {
                    delegations: final(self).delegations,
                    ..*old(self)
                })
            },
    {
        if !self.dids.contains_key(did) {
            return Err(IdentityError::DidNotFound);
        }
        if !self.initialized {
            return Err(IdentityError::NotInitialized);
        }
        if self.paused {
            return Err(IdentityError::ContractPaused);
        }
        let d = Delegation { delegate, permissions, created_at: now, expiry, revoked: false };
        let ghost dv = d@;
        let ghost old_self = *self;
        match self.delegations.find(did) {
            Some(k) => {
                let inner0 = &self.delegations.entries[k].1;
                assert(self.delegations.map()[did@] == *inner0);
                if inner0.contains_key(delegate) {
                    assert(self.delegations_of(did@).dom().contains(delegate));
                    return Err(IdentityError::DelegationExists);
                }
                if inner0.entries.len() >= MAX_DELEGATIONS_PER_DID {
                    return Err(IdentityError::MaxDelegationsReached);
                }
                let mut inner = self.delegations.replace_at(k, Table::new());
                let ghost m0 = inner.map();
                inner.push_new(delegate, d);
                assert(inner.map().map_values(|x: Delegation| x@) =~= m0.map_values(
                    |x: Delegation| x@,
                ).insert(delegate, dv));
                self.delegations.set_at(k, inner);
            },
            None => {
                let mut inner: Table<Delegation> = Table::new();
                inner.push_new(delegate, d);
                assert(inner.map().map_values(|x: Delegation| x@) =~= Map::<u64, DelegationView>::empty().insert(
                    delegate,
                    dv,
                ));
                self.delegations.push_new(did.clone(), inner);
            },
        }
        assert forall|k: Seq<char>| #[trigger] self.delegations.map().dom().contains(k) implies self.delegations.map()[k].wf() by {
            if k != did@ {
                assert(old_self.delegations.map()[k] == self.delegations.map()[k]);
            }
        }
        assert forall|other: Seq<char>| other != did@ implies #[trigger] self.delegations_of(other)
            == old_self.delegations_of(other) by {
            if self.delegations.map().dom().contains(other) {
                assert(old_self.delegations.map()[other] == self.delegations.map()[other]);
            }
        }
        Ok(())
    }

    /// What revoking a delegation fails with, if anything, in this order: an unknown
    /// DID; a caller that is neither the controller nor the delegate; no delegation.
    pub open spec fn revoke_delegation_error(self, did: Seq<char>, delegate: u64, caller: u64) -> Option<
        IdentityError,
    > {
        let d = self.docs()[did];
        if !self.docs().dom().contains(did) {
            Some(IdentityError::DidNotFound)
        } else if caller != d.controller && caller != delegate {
            Some(IdentityError::NotAuthorized)
        } else if !self.delegations_of(did).dom().contains(delegate) {
            Some(IdentityError::DelegationNotFound)
        } else {
            None
        }
    }

    /// Revokes a delegation, on behalf of the DID's controller or the delegate. Errors:
    /// see `revoke_delegation_error`.
    pub fn revoke_delegation(&mut self, did: &String, delegate: u64, caller: u64) -> (r: Result<
        (),
        IdentityError,
    >)
        requires
            old(self).wf(),
        ensures
            final(self).wf(),
            r is Err <==> old(self).revoke_delegation_error(did@, delegate, caller) is Some,
            r matches Err(e) ==> old(self).revoke_delegation_error(did@, delegate, caller) == Some(e),
            r is Err ==> *final(self) == *old(self),
            r is Ok ==> {
                let dv = old(self).delegations_of(did@)[delegate];
                &&& final(self).delegations_of(did@) == old(self).delegations_of(did@).insert(
                    delegate,
                    DelegationView { revoked: true, ..dv },
                )
                &&& *final(self) == (IdentityRegistryContract {
                    delegations: final(self).delegations,
                    ..*old(self)
                })
            },
    {
        let i = match self.dids.find(did) {
            Some(i) => i,
            None => {
                return Err(IdentityError::DidNotFound);
            },
        };
        let controller = self.dids.entries[i].1.controller;
        if caller != controller && caller != delegate {
            return Err(IdentityError::NotAuthorized);
        }
        let k = match self.delegations.find(did) {
            Some(k) => k,
            None => {
                return Err(IdentityError::DelegationNotFound);
            },
        };
        assert(self.delegations.map()[did@] == self.delegations.entries@[k as int].1);
        let j = match self.delegations.entries[k].1.find(delegate) {
            Some(j) => j,
            None => {
                return Err(IdentityError::DelegationNotFound);
            },
        };
        let ghost old_self = *self;
        let mut inner = self.delegations.replace_at(k, Table::new());
        let ghost m0 = inner.map();
        let cur = &inner.entries[j].1;
        let mut perms: Vec<String> = Vec::new();
        let mut q: usize = 0;
        while q < cur.permissions.len()
            invariant
                q <= cur.permissions@.len(),
                perms@.len() == q,
                forall|t: int| 0 <= t < q ==> #[trigger] perms@[t]@ == cur.permissions@[t]@,
            decreases cur.permissions@.len() - q,
        {
            perms.push(cur.permissions[q].clone());
            q = q + 1;
        }
        assert(perms_view(perms@) =~= perms_view(cur.permissions@));
        let nd = Delegation {
            delegate: cur.delegate,
            permissions: perms,
            created_at: cur.created_at,
            expiry: cur.expiry,
            revoked: true,
        };
        let ghost ndv = nd@;
        inner.set_at(j, nd);
        assert(inner.map().map_values(|x: Delegation| x@) =~= m0.map_values(|x: Delegation| x@).insert(
            delegate,
            ndv,
        ));
        self.delegations.set_at(k, inner);
        assert forall|kk: Seq<char>| #[trigger] self.delegations.map().dom().contains(kk) implies self.delegations.map()[kk].wf() by {
            if kk != did@ {
                assert(old_self.delegations.map()[kk] == self.delegations.map()[kk]);
            }
        }
        Ok(())
    }

    /// Deactivates a DID. Errors: an unknown DID.
    pub fn deactivate_did(&mut self, did: &String, now: u64) -> (r: Result<(), IdentityError>)
        requires
            old(self).wf(),
        ensures
            final(self).wf(),
            !old(self).docs().dom().contains(did@) <==> r is Err,
            r is Err ==> r == Err::<(), IdentityError>(IdentityError::DidNotFound),
            r is Err ==> *final(self) == *old(self),
            r is Ok ==> final(self).docs() == old(self).docs().insert(
                did@,
                DidView { deactivated: true, updated: now, ..old(self).docs()[did@] },
            ) && *final(self) == (IdentityRegistryContract { dids: final(self).dids, ..*old(self) }),
    {
        let i = match self.dids.find(did) {
            Some(i) => i,
            None => {
                return Err(IdentityError::DidNotFound);
            },
        };
        let mut doc = self.dids.entries[i].1.copy();
        doc.deactivated = true;
        doc.updated = now;
        let ghost dv = doc@;
        let ghost old_d = self.docs();
        self.dids.set_at(i, doc);
        assert(self.docs() =~= old_d.insert(did@, dv));
        Ok(())
    }

    /// The document of a DID. Errors: an unknown DID.
    pub fn resolve_did(&self, did: &String) -> (r: Result<DIDDocument, IdentityError>)
        requires
            self.wf(),
        ensures
            !self.docs().dom().contains(did@) <==> r is Err,
            r is Err ==> r == Err::<DIDDocument, IdentityError>(IdentityError::DidNotFound),
            r matches Ok(d) ==> d@ == self.docs()[did@],
    {
        match self.dids.find(did) {
            Some(i) => Ok(self.dids.entries[i].1.copy()),
            None => Err(IdentityError::DidNotFound),
        }
    }

    /// The DID of an account, if it has one.
    pub fn get_did_by_address(&self, address: u64) -> (r: Option<String>)
        requires
            self.wf(),
        ensures
            r is Some <==> self.address_to_did.map().dom().contains(address),
            r matches Some(d) ==> d@ == self.address_to_did.map()[address]@,
    {
        match self.address_to_did.find(address) {
            Some(i) => Some(self.address_to_did.entries[i].1.clone()),
            None => None,
        }
    }

    /// The reputation of a DID. Errors: an unknown DID.
    pub fn get_reputation_score(&self, did: &String) -> (r: Result<u32, IdentityError>)
        requires
            self.wf(),
        ensures
            !self.docs().dom().contains(did@) <==> r is Err,
            r is Err ==> r == Err::<u32, IdentityError>(IdentityError::DidNotFound),
            r matches Ok(s) ==> s == self.docs()[did@].reputation_score,
    {
        match self.dids.find(did) {
            Some(i) => Ok(self.dids.entries[i].1.reputation_score),
            None => Err(IdentityError::DidNotFound),
        }
    }

    /// Whether the first claim with the id is verified and not revoked (false when the
    /// DID has no such claim). Errors: an unknown DID.
    pub fn is_claim_verified(&self, did: &String, claim_id: u32) -> (r: Result<bool, IdentityError>)
        requires
            self.wf(),
        ensures
            !self.docs().dom().contains(did@) <==> r is Err,
            r is Err ==> r == Err::<bool, IdentityError>(IdentityError::DidNotFound),
            r matches Ok(b) ==> b == match claim_pos(self.docs()[did@].claims, claim_id) {
                Some(j) => self.docs()[did@].claims[j].verified && !self.docs()[did@].claims[j].revoked,
                None => false,
            },
    {
        let i = match self.dids.find(did) {
            Some(i) => i,
            None => {
                return Err(IdentityError::DidNotFound);
            },
        };
        let doc = &self.dids.entries[i].1;
        match find_claim(&doc.claims, claim_id) {
            Some(j) => {
                assert(claims_view(doc.claims@)[j as int] == doc.claims@[j as int]@);
                Ok(doc.claims[j].verified && !doc.claims[j].revoked)
            },
            None => Ok(false),
        }
    }

    /// The verified, unrevoked claims of a DID with the given type, in order. Errors:
    /// an unknown DID.
    #[verifier::loop_isolation(false)]
    pub fn get_verified_claims_by_type(&self, did: &String, claim_type: &String) -> (r: Result<
        Vec<Claim>,
        IdentityError,
    >)
        requires
            self.wf(),
        ensures
            !self.docs().dom().contains(did@) <==> r is Err,
            r is Err ==> r == Err::<Vec<Claim>, IdentityError>(IdentityError::DidNotFound),
            r matches Ok(v) ==> claims_view(v@) == self.docs()[did@].claims.filter(
                |c: ClaimView| c.claim_type == claim_type@ && c.verified && !c.revoked,
            ),
    {
        let i = match self.dids.find(did) {
            Some(i) => i,
            None => {
                return Err(IdentityError::DidNotFound);
            },
        };
        let doc = &self.dids.entries[i].1;
        let ghost cs = claims_view(doc.claims@);
        let ghost f = |c: ClaimView| c.claim_type == claim_type@ && c.verified && !c.revoked;
        let mut out: Vec<Claim> = Vec::new();
        let mut k: usize = 0;
        assert(cs.take(0).filter(f) =~= Seq::<ClaimView>::empty());
        while k < doc.claims.len()
            invariant
                k <= doc.claims@.len(),
                cs == claims_view(doc.claims@),
                claims_view(out@) == cs.take(k as int).filter(f),
            decreases doc.claims@.len() - k,
        {
            let c = &doc.claims[k];
            assert(cs[k as int] == c@);
            assert(cs.take(k + 1) =~= cs.take(k as int).push(c@));
            proof {
                cs.take(k as int).lemma_filter_push(c@, f);
            }
            let ghost o0 = claims_view(out@);
            assert(f(c@) == (c.claim_type@ == claim_type@ && c.verified && !c.revoked));
            if str_eq(&c.claim_type, claim_type) && c.verified && !c.revoked {
                out.push(c.copy());
                assert(claims_view(out@) =~= o0.push(c@));
            }
            k = k + 1;
        }
        assert(cs.take(k as int) =~= cs);
        Ok(out)
    }

    /// Sets the pause flag on behalf of an administrator. Errors: a caller without the
    /// administrator role.
    pub fn set_paused(&mut self, admin: u64, paused: bool) -> (r: Result<(), IdentityError>)
        requires
            old(self).wf(),
        ensures
            final(self).wf(),
            !old(self).roles.holds(admin_role(), admin) <==> r is Err,
            r is Err ==> r == Err::<(), IdentityError>(IdentityError::NotAuthorized),
            r is Err ==> *final(self) == *old(self),
            r is Ok ==> *final(self) == (IdentityRegistryContract { paused, ..*old(self) }),
    {
        let a = String::from_str("ADMIN");
        proof {
            reveal_strlit("ADMIN");
        }
        if !self.roles.has_role(&a, admin) {
            return Err(IdentityError::NotAuthorized);
        }
        self.paused = paused;
        Ok(())
    }

    /// Pauses the registry. Errors: a caller without the administrator role.
    pub fn pause(&mut self, admin: u64) -> (r: Result<(), IdentityError>)
        requires
            old(self).wf(),
        ensures
            final(self).wf(),
            !old(self).roles.holds(admin_role(), admin) <==> r is Err,
            r is Err ==> *final(self) == *old(self),
            r is Ok ==> *final(self) == (IdentityRegistryContract { paused: true, ..*old(self) }),
    {
        self.set_paused(admin, true)
    }

    /// Resumes the registry. Errors: a caller without the administrator role.
    pub fn unpause(&mut self, admin: u64) -> (r: Result<(), IdentityError>)
        requires
            old(self).wf(),
        ensures
            final(self).wf(),
            !old(self).roles.holds(admin_role(), admin) <==> r is Err,
            r is Err ==> *final(self) == *old(self),
            r is Ok ==> *final(self) == (IdentityRegistryContract { paused: false, ..*old(self) }),
    {
        self.set_paused(admin, false)
    }

    /// The number of DIDs created.
    pub fn get_total_dids(&self) -> (r: u32)
        ensures
            r == self.total_dids,
    {
        self.total_dids
    }

    /// Grants `role` to `address` on behalf of an administrator. Errors: a caller
    /// without the administrator role.
    pub fn grant_role(&mut self, admin: u64, role: String, address: u64) -> (r: Result<
        (),
        IdentityError,
    >)
        requires
            old(self).wf(),
        ensures
            final(self).wf(),
            !old(self).roles.holds(admin_role(), admin) <==> r is Err,
            r is Err ==> r == Err::<(), IdentityError>(IdentityError::NotAuthorized),
            r is Err ==> *final(self) == *old(self),
            r is Ok ==> final(self).roles.view_set() == old(self).roles.view_set().insert(
                (role@, address),
            ) && final(self).dids == old(self).dids,
    {
        let a = String::from_str("ADMIN");
        proof {
            reveal_strlit("ADMIN");
        }
        if !self.roles.has_role(&a, admin) {
            return Err(IdentityError::NotAuthorized);
        }
        self.roles.grant(role, address);
        Ok(())
    }

    /// Revokes `role` from `address` on behalf of an administrator. Errors: a caller
    /// without the administrator role.
    pub fn revoke_role(&mut self, admin: u64, role: &String, address: u64) -> (r: Result<
        (),
        IdentityError,
    >)
        requires
            old(self).wf(),
        ensures
            final(self).wf(),
            !old(self).roles.holds(admin_role(), admin) <==> r is Err,
            r is Err ==> r == Err::<(), IdentityError>(IdentityError::NotAuthorized),
            r is Err ==> *final(self) == *old(self),
            r is Ok ==> final(self).roles.view_set() == old(self).roles.view_set().remove(
                (role@, address),
            ) && final(self).dids == old(self).dids,
    {
        let a = String::from_str("ADMIN");
        proof {
            reveal_strlit("ADMIN");
        }
        if !self.roles.has_role(&a, admin) {
            return Err(IdentityError::NotAuthorized);
        }
        self.roles.revoke(role, address);
        Ok(())
    }

    /// Whether `address` holds `role`.
    pub fn has_role(&self, role: &String, address: u64) -> (r: bool)
        ensures
            r == self.roles.holds(role@, address),
    {
        self.roles.has_role(role, address)
    }
}


/// One DID per account: an account whose DID exists cannot create another.
pub proof fn law_one_did_per_account(reg: IdentityRegistryContract, user: u64)
    requires
        reg.initialized,
        !reg.paused,
        reg.docs().dom().contains(did_of(user)),
    ensures
        reg.create_error(user) == Some(IdentityError::DidExists),
{
}

/// A revoked claim can never be verified afterwards.
pub proof fn law_revoked_claim_unverifiable(
    reg: IdentityRegistryContract,
    admin: u64,
    did: Seq<char>,
    claim_id: u32,
)
    requires
        reg.docs().dom().contains(did),
        claim_pos(reg.docs()[did].claims, claim_id) is Some,
        reg.docs()[did].claims[claim_pos(reg.docs()[did].claims, claim_id).unwrap()].revoked,
    ensures
        reg.verify_error(admin, did, claim_id) is Some,
{
}

/// Reputation only grows: a verified claim adds the verified-credential score, and an
/// attendance adds its score capped at the attendance score, never more.
pub proof fn law_reputation_grows(score: u32)
    ensures
        VERIFIED_CREDENTIAL_SCORE > 0,
        attendance_increment(score) <= EVENT_ATTENDANCE_SCORE,
        attendance_increment(score) <= score,
        score <= EVENT_ATTENDANCE_SCORE ==> attendance_increment(score) == score,
{
}

/// Only an administrator or a verifier confirms claims and records attendance.
pub proof fn law_only_verifiers_confirm(
    reg: IdentityRegistryContract,
    caller: u64,
    did: Seq<char>,
    claim_id: u32,
    score: u32,
)
    requires
        !reg.is_verifier(caller),
    ensures
        reg.verify_error(caller, did, claim_id) == Some(IdentityError::NotAuthorized),
        reg.attendance_error(caller, did, score) == Some(IdentityError::NotAuthorized),
{
}

} // verus!
