//! The ticket-proof contract: its state and the operations on it. Authorization and
//! events are the host's; on any error an operation leaves the state as it was.
use vstd::prelude::*;
use crate::zk_ticket::{
    AttributeType, ZKAttribute, AttrView, ZKProof, ProofView, TicketCommitment, CommitmentView,
    NullifierInfo, NullifierView, CircuitParameters, ParamsView, EventCommitments,
    VerificationCache, RevocationList, BatchStatus, BatchVerification, MobileProofData,
    ZKTicketError, type_key, attrs_view, copy_attrs, params_valid, validate_circuit_params,
    attributes_ok, attr_values, commitment_message, calculate_commitment,
    calculate_attributes_hash, proof_check, verify_zk_proof, cache_message, generate_cache_key,
    zk_batch_message, generate_batch_id, mobile_check, verify_mobile_proof_internal,
    VERIFICATION_CACHE_TTL_SECONDS,
};
use crate::table::{Table, ByteTable};
use crate::bytes::{copy_bytes, copy_ids, ids_view};
use crate::crypto::sha256_digest;
use crate::access::bytes_eq;

verus! {

/// The value of an event's commitments.
pub struct EventView {
    pub event_id: u64,
    pub commitments: Seq<Seq<u8>>,
    pub total_tickets: u32,
    pub active_tickets: u32,
    pub created_at: u64,
    pub circuit_params: ParamsView,
}

impl View for EventCommitments {
    type V = EventView;

    open spec fn view(&self) -> EventView {
        EventView {
            event_id: self.event_id,
            commitments: ids_view(self.commitments@),
            total_tickets: self.total_tickets,
            active_tickets: self.active_tickets,
            created_at: self.created_at,
            circuit_params: self.circuit_params@,
        }
    }
}

impl EventCommitments {
    /// A copy of the record.
    pub fn copy(&self) -> (r: Self)
        ensures
            r@ == self@,
    {
        EventCommitments {
            event_id: self.event_id,
            commitments: copy_ids(&self.commitments),
            total_tickets: self.total_tickets,
            active_tickets: self.active_tickets,
            created_at: self.created_at,
            circuit_params: self.circuit_params.copy(),
        }
    }
}

/// The value of a cached verification result: key, result, time and proof id.
pub open spec fn cache_view(c: VerificationCache) -> (Seq<u8>, bool, u64, Seq<u8>) {
    (c.cache_key@, c.result, c.timestamp, c.proof_id@)
}

/// The value of an optional cached result.
pub open spec fn opt_cache_view(c: Option<VerificationCache>) -> Option<(Seq<u8>, bool, u64, Seq<u8>)> {
    match c {
        Some(v) => Some(cache_view(v)),
        None => None,
    }
}

/// The value of a batch verification: id, proofs, results, times and status.
pub open spec fn batch_view(b: BatchVerification) -> (
    Seq<u8>,
    Seq<Seq<u8>>,
    Seq<bool>,
    u64,
    Option<u64>,
    BatchStatus,
) {
    (b.batch_id@, ids_view(b.proofs@), b.results@, b.created_at, b.completed_at, b.status)
}

/// The value of a mobile device's record: device id, template, last use and count.
pub open spec fn mobile_view(m: MobileProofData) -> (Seq<u8>, Seq<u8>, u64, u32) {
    (m.mobile_device_id@, m.proof_template@, m.last_used, m.usage_count)
}

/// The position of the first attribute of kind `k`.
pub open spec fn first_kind(a: Seq<AttrView>, k: (int, Seq<char>)) -> Option<int>
    decreases a.len(),
{
    if a.len() == 0 {
        None
    } else if a[0].kind == k {
        Some(0)
    } else {
        match first_kind(a.drop_first(), k) {
            Some(j) => Some(j + 1),
            None => None,
        }
    }
}

proof fn lemma_first_kind(a: Seq<AttrView>, k: (int, Seq<char>))
    ensures
        first_kind(a, k) matches Some(j) ==> 0 <= j < a.len() && a[j].kind == k && forall|q: int|
            0 <= q < j ==> #[trigger] a[q].kind != k,
        first_kind(a, k) is None ==> forall|q: int| 0 <= q < a.len() ==> #[trigger] a[q].kind != k,
    decreases a.len(),
{
    if a.len() > 0 {
        lemma_first_kind(a.drop_first(), k);
        assert forall|q: int| 0 < q < a.len() implies a[q] == a.drop_first()[q - 1] by {}
    }
}

/// The attributes after revealing the first one of kind `k` with value `v`.
pub open spec fn reveal_one(a: Seq<AttrView>, k: (int, Seq<char>), v: Seq<u8>) -> Seq<AttrView> {
    match first_kind(a, k) {
        Some(j) => a.update(j, AttrView { revealed: true, value: v, ..a[j] }),
        None => a,
    }
}

/// The attributes after revealing, in order, the first attribute of each kind with
/// its value.
pub open spec fn reveal_all(a: Seq<AttrView>, kinds: Seq<(int, Seq<char>)>, data: Seq<Seq<u8>>) -> Seq<
    AttrView,
>
    decreases kinds.len(),
{
    if kinds.len() == 0 {
        a
    } else {
        reveal_one(reveal_all(a, kinds.drop_last(), data), kinds.last(), data[kinds.len() - 1])
    }
}

/// The kinds of a list of attribute kinds.
pub open spec fn kinds_view(t: Seq<AttributeType>) -> Seq<(int, Seq<char>)> {
    t.map_values(|x: AttributeType| type_key(x))
}

/// Reveals the first attribute of kind `kind` with value `value`.
fn reveal_in(attrs: &mut Vec<ZKAttribute>, kind: &AttributeType, value: &Vec<u8>)
    ensures
        attrs_view(final(attrs)@) == reveal_one(attrs_view(old(attrs)@), type_key(*kind), value@),
{
    let ghost a = attrs_view(attrs@);
    proof {
        lemma_first_kind(a, type_key(*kind));
    }
    let mut i: usize = 0;
    while i < attrs.len()
        invariant
            i <= attrs@.len(),
            attrs@ == old(attrs)@,
            a == attrs_view(attrs@),
            forall|q: int| 0 <= q < i ==> #[trigger] a[q].kind != type_key(*kind),
        decreases attrs@.len() - i,
    {
        assert(a[i as int] == attrs@[i as int]@);
        if attrs[i].attribute_type.same(kind) {
            proof {
                let k = type_key(*kind);
                lemma_first_kind(a, k);
                assert(a[i as int].kind == k);
                match first_kind(a, k) {
                    Some(j) => {
                        if j < i {
                            assert(a[j].kind != k);
                        } else if j > i {
                            assert(a[i as int].kind != k);
                        }
                    },
                    None => {
                        assert(a[i as int].kind != k);
                    },
                }
            }
            assert(first_kind(a, type_key(*kind)) == Some(i as int));
            let mut x = attrs.remove(i);
            x.revealed = true;
            x.value = copy_bytes(value);
            attrs.insert(i, x);
            assert(attrs_view(attrs@) =~= reveal_one(a, type_key(*kind), value@));
            return;
        }
        i = i + 1;
    }
    proof {
        lemma_first_kind(a, type_key(*kind));
    }
}

/// A copy of a list of flags.
pub fn copy_flags(v: &Vec<bool>) -> (r: Vec<bool>)
    ensures
        r@ == v@,
{
    let mut r: Vec<bool> = Vec::new();
    let mut i: usize = 0;
    while i < v.len()
        invariant
            i <= v@.len(),
            r@ == v@.take(i as int),
        decreases v@.len() - i,
    {
        r.push(v[i]);
        i = i + 1;
        assert(r@ =~= v@.take(i as int));
    }
    assert(v@.take(i as int) =~= v@);
    r
}

/// The state of the ticket-proof contract.
pub struct ZKTicketContract {
    /// None until the contract is initialized.
    pub admin: Option<u64>,
    pub paused: bool,
    pub version: u32,
    pub circuit_params: Option<CircuitParameters>,
    pub revocation: Option<RevocationList>,
    pub proofs: ByteTable<ZKProof>,
    pub nullifiers: ByteTable<NullifierInfo>,
    pub commitments: ByteTable<TicketCommitment>,
    /// The commitments of each event.
    pub event_commitments: Table<EventCommitments>,
    /// The proofs each owner submitted, in order.
    pub user_proofs: Table<Vec<Vec<u8>>>,
    pub cache: Option<VerificationCache>,
    pub batches: ByteTable<BatchVerification>,
    pub mobile: ByteTable<MobileProofData>,
}

impl ZKTicketContract {
    /// The accepted proofs, by id.
    pub open spec fn proof_map(self) -> Map<Seq<u8>, ProofView> {
        self.proofs.map().map_values(|p: ZKProof| p@)
    }

    /// The nullifier records, by nullifier.
    pub open spec fn nullifier_map(self) -> Map<Seq<u8>, NullifierView> {
        self.nullifiers.map().map_values(|n: NullifierInfo| n@)
    }

    /// The ticket commitments, by commitment.
    pub open spec fn commitment_map(self) -> Map<Seq<u8>, CommitmentView> {
        self.commitments.map().map_values(|c: TicketCommitment| c@)
    }

    /// The commitments of each event.
    pub open spec fn event_map(self) -> Map<u64, EventView> {
        self.event_commitments.map().map_values(|e: EventCommitments| e@)
    }

    /// The proofs of each owner.
    pub open spec fn user_map(self) -> Map<u64, Seq<Seq<u8>>> {
        self.user_proofs.map().map_values(|v: Vec<Vec<u8>>| ids_view(v@))
    }

    /// The revoked commitments.
    pub open spec fn revoked(self) -> Seq<Seq<u8>> {
        ids_view(self.revocation.unwrap().revoked_commitments@)
    }

    /// The circuit parameters in force.
    pub open spec fn params(self) -> ParamsView {
        self.circuit_params.unwrap()@
    }

    /// The contract has been initialized.
    pub open spec fn initialized(self) -> bool {
        self.admin is Some
    }

    /// The invariant: the tables are well formed, an initialized contract holds valid
    /// circuit parameters and a revocation list, and every stored proof is no longer
    /// than `u32::MAX` bytes.
    pub open spec fn wf(self) -> bool {
        &&& self.proofs.wf()
        &&& self.nullifiers.wf()
        &&& self.commitments.wf()
        &&& self.event_commitments.wf()
        &&& self.user_proofs.wf()
        &&& self.batches.wf()
        &&& self.mobile.wf()
        &&& self.admin is Some ==> self.circuit_params is Some && params_valid(self.params())
            && self.revocation is Some
        &&& forall|k: Seq<u8>| #[trigger]
            self.proof_map().dom().contains(k) ==> self.proof_map()[k].proof_data.len()
                <= u32::MAX
    }

    /// A contract that has not been initialized.
    pub fn new() -> (r: Self)
        ensures
            r.wf(),
            !r.initialized(),
            r.proof_map() == Map::<Seq<u8>, ProofView>::empty(),
            r.commitment_map() == Map::<Seq<u8>, CommitmentView>::empty(),
            r.nullifier_map() == Map::<Seq<u8>, NullifierView>::empty(),
    {
        let r = ZKTicketContract {
            admin: None,
            paused: false,
            version: 1,
            circuit_params: None,
            revocation: None,
            proofs: ByteTable::new(),
            nullifiers: ByteTable::new(),
            commitments: ByteTable::new(),
            event_commitments: Table::new(),
            user_proofs: Table::new(),
            cache: None,
            batches: ByteTable::new(),
            mobile: ByteTable::new(),
        };
        assert(r.proof_map() =~= Map::<Seq<u8>, ProofView>::empty());
        assert(r.commitment_map() =~= Map::<Seq<u8>, CommitmentView>::empty());
        assert(r.nullifier_map() =~= Map::<Seq<u8>, NullifierView>::empty());
        r
    }

    /// Initializes the contract with its administrator and circuit parameters, and an
    /// empty revocation list. Errors: a contract already initialized, then invalid
    /// parameters.
    pub fn initialize(&mut self, admin: u64, circuit_params: CircuitParameters, now: u64) -> (r:
        Result<(), ZKTicketError>)
        requires
            old(self).wf(),
        ensures
            final(self).wf(),
            old(self).initialized() ==> r == Err::<(), ZKTicketError>(
                ZKTicketError::AlreadyInitialized,
            ),
            !old(self).initialized() && !params_valid(circuit_params@) ==> r == Err::<
                (),
                ZKTicketError,
            >(ZKTicketError::InvalidCircuitParams),
            !old(self).initialized() && params_valid(circuit_params@) ==> r is Ok,
            r is Err ==> *final(self) == *old(self),
            r is Ok ==> {
                &&& final(self).admin == Some(admin)
                &&& final(self).params() == circuit_params@
                &&& !final(self).paused
                &&& final(self).version == 1
                &&& final(self).revoked().len() == 0
                &&& final(self).revocation.unwrap().revoked_nullifiers@.len() == 0
                &&& final(self).revocation.unwrap().last_updated == now
                &&& final(self).proofs == old(self).proofs
                &&& final(self).commitments == old(self).commitments
                &&& final(self).nullifiers == old(self).nullifiers
            },
    {
        if self.admin.is_some() {
            return Err(ZKTicketError::AlreadyInitialized);
        }
        match validate_circuit_params(&circuit_params) {
            Err(e) => {
                return Err(e);
            },
            Ok(()) => {},
        }
        self.admin = Some(admin);
        self.circuit_params = Some(circuit_params);
        self.paused = false;
        self.version = 1;
        self.revocation = Some(
            RevocationList {
                revoked_commitments: Vec::new(),
                revoked_nullifiers: Vec::new(),
                last_updated: now,
            },
        );
        assert(self.revoked() =~= Seq::<Seq<u8>>::empty());
        Ok(())
    }

    /// The record of an event's commitments before a new one is added: the stored one,
    /// or an empty one created now under the parameters in force.
    pub open spec fn event_record(self, event_id: u64, now: u64) -> EventView {
        if self.event_map().dom().contains(event_id) {
            self.event_map()[event_id]
        } else {
            EventView {
                event_id,
                commitments: Seq::empty(),
                total_tickets: 0,
                active_tickets: 0,
                created_at: now,
                circuit_params: self.params(),
            }
        }
    }

    /// What creating a commitment fails with, if anything, in this order: a contract
    /// not initialized, paused; attributes without a ticket id and an event id; an
    /// event's ticket count at `u32::MAX`.
    pub open spec fn create_error(self, event_id: u64, attributes: Seq<AttrView>, now: u64) -> Option<
        ZKTicketError,
    > {
        let rec = self.event_record(event_id, now);
        if !self.initialized() {
            Some(ZKTicketError::NotInitialized)
        } else if self.paused {
            Some(ZKTicketError::ContractPaused)
        } else if !attributes_ok(attributes) {
            Some(ZKTicketError::InsufficientAttributes)
        } else if rec.total_tickets == u32::MAX || rec.active_tickets == u32::MAX {
            Some(ZKTicketError::ArithmeticError)
        } else {
            None
        }
    }

    /// The event record to be stored or updated.
    fn event_record_exec(&self, event_id: u64, now: u64) -> (r: Result<
        (Option<usize>, EventCommitments),
        ZKTicketError,
    >)
        requires
            self.wf(),
        ensures
            !self.initialized() ==> r == Err::<(Option<usize>, EventCommitments), ZKTicketError>(
                ZKTicketError::NotInitialized,
            ),
            r matches Ok((i, rec)) ==> self.initialized() && rec@ == self.event_record(event_id, now)
                && match i {
                Some(i) => i < self.event_commitments.entries@.len()
                    && self.event_commitments.entries@[i as int].0 == event_id,
                None => !self.event_map().dom().contains(event_id),
            },
            r is Err ==> !self.initialized(),
    {
        if self.admin.is_none() {
            return Err(ZKTicketError::NotInitialized);
        }
        match self.event_commitments.find(event_id) {
            Some(i) => {
                let rec = self.event_commitments.entries[i].1.copy();
                Ok((Some(i), rec))
            },
            None => {
                let params = match &self.circuit_params {
                    Some(p) => p.copy(),
                    None => {
                        return Err(ZKTicketError::NotInitialized);
                    },
                };
                let rec = EventCommitments {
                    event_id,
                    commitments: Vec::new(),
                    total_tickets: 0,
                    active_tickets: 0,
                    created_at: now,
                    circuit_params: params,
                };
                assert(ids_view(rec.commitments@) =~= Seq::<Seq<u8>>::empty());
                Ok((None, rec))
            },
        }
    }

    /// Creates the commitment to a ticket: its value is the digest of the ticket hash,
    /// the nullifier and the attributes' commitments (see `commitment_message`). The
    /// commitment is stored as active, the event's record gains it, and the nullifier
    /// is registered as unspent. Errors: see `create_error`.
    pub fn create_ticket_commitment(
        &mut self,
        env: &soroban_sdk::Env,
        event_id: u64,
        ticket_hash: Vec<u8>,
        attributes: &Vec<ZKAttribute>,
        nullifier: Vec<u8>,
        now: u64,
    ) -> (r: Result<Vec<u8>, ZKTicketError>)
        requires
            old(self).wf(),
            forall|i: int| 0 <= i < attributes@.len() ==> #[trigger] attributes@[i].value@.len() <= u32::MAX,
        ensures
            final(self).wf(),
            r is Err <==> old(self).create_error(event_id, attrs_view(attributes@), now) is Some,
            r matches Err(e) ==> old(self).create_error(event_id, attrs_view(attributes@), now)
                == Some(e),
            r is Err ==> *final(self) == *old(self),
            r matches Ok(c) ==> {
                let rec = old(self).event_record(event_id, now);
                &&& c@ == sha256_digest(
                    commitment_message(ticket_hash@, nullifier@, attrs_view(attributes@)),
                )
                &&& final(self).commitment_map() == old(self).commitment_map().insert(
                    c@,
                    CommitmentView {
                        commitment: c@,
                        event_id,
                        ticket_hash: ticket_hash@,
                        created_at: now,
                        nullifier: nullifier@,
                        attributes_hash: sha256_digest(attr_values(attrs_view(attributes@))),
                        active: true,
                    },
                )
                &&& final(self).event_map() == old(self).event_map().insert(
                    event_id,
                    EventView {
                        commitments: rec.commitments.push(c@),
                        total_tickets: (rec.total_tickets + 1) as u32,
                        active_tickets: (rec.active_tickets + 1) as u32,
                        ..rec
                    },
                )
                &&& final(self).nullifier_map() == old(self).nullifier_map().insert(
                    nullifier@,
                    NullifierView { nullifier: nullifier@, used: false, used_at: None, proof_id: None },
                )
                &&& final(self).proofs == old(self).proofs
                &&& final(self).revocation == old(self).revocation
                &&& final(self).admin == old(self).admin
                &&& final(self).paused == old(self).paused
            },
    {
        if self.admin.is_none() {
            return Err(ZKTicketError::NotInitialized);
        }
        if self.paused {
            return Err(ZKTicketError::ContractPaused);
        }
        match Self::validate_attributes(attributes) {
            Err(e) => {
                return Err(e);
            },
            Ok(()) => {},
        }
        let (slot, mut rec) = match self.event_record_exec(event_id, now) {
            Ok(x) => x,
            Err(e) => {
                return Err(e);
            },
        };
        if rec.total_tickets == u32::MAX || rec.active_tickets == u32::MAX {
            return Err(ZKTicketError::ArithmeticError);
        }
        let commitment = calculate_commitment(env, &ticket_hash, attributes, &nullifier);
        let attributes_hash = calculate_attributes_hash(env, attributes);
        let record = TicketCommitment {
            commitment: copy_bytes(&commitment),
            event_id,
            ticket_hash,
            created_at: now,
            nullifier: copy_bytes(&nullifier),
            attributes_hash,
            active: true,
        };
        let ghost cv = record@;
        let ghost old_c = self.commitment_map();
        self.commitments.insert(copy_bytes(&commitment), record);
        assert(self.commitment_map() =~= old_c.insert(commitment@, cv));
        let ghost rv = rec@;
        let ghost cs = rec.commitments@;
        rec.commitments.push(copy_bytes(&commitment));
        assert(ids_view(rec.commitments@) =~= ids_view(cs).push(commitment@));
        rec.total_tickets = rec.total_tickets + 1;
        rec.active_tickets = rec.active_tickets + 1;
        let ghost ev = rec@;
        let ghost old_e = self.event_map();
        match slot {
            Some(i) => {
                self.event_commitments.set_at(i, rec);
            },
            None => {
                self.event_commitments.push_new(event_id, rec);
            },
        }
        assert(self.event_map() =~= old_e.insert(event_id, ev));
        let info = NullifierInfo {
            nullifier: copy_bytes(&nullifier),
            used: false,
            used_at: None,
            proof_id: None,
        };
        let ghost nv = info@;
        let ghost old_n = self.nullifier_map();
        self.nullifiers.insert(nullifier, info);
        assert(self.nullifier_map() =~= old_n.insert(nv.nullifier, nv));
        Ok(commitment)
    }

    /// What submitting a proof fails with, if anything, in this order: a paused
    /// contract; an unknown or inactive commitment; a commitment of another event; an
    /// unknown or spent nullifier; a proof past its expiry; a contract not initialized;
    /// a revoked commitment; then what checking the proof fails with (see
    /// `proof_check`).
    pub open spec fn submit_error(
        self,
        ticket_commitment: Seq<u8>,
        nullifier: Seq<u8>,
        event_id: u64,
        attributes: Seq<AttrView>,
        proof_data: Seq<u8>,
        expires_at: u64,
        now: u64,
    ) -> Option<ZKTicketError> {
        let cm = self.commitment_map()[ticket_commitment];
        if self.paused {
            Some(ZKTicketError::ContractPaused)
        } else if !self.commitment_map().dom().contains(ticket_commitment) {
            Some(ZKTicketError::InvalidCommitment)
        } else if !cm.active {
            Some(ZKTicketError::InvalidCommitment)
        } else if cm.event_id != event_id {
            Some(ZKTicketError::InvalidEventId)
        } else if !self.nullifier_map().dom().contains(nullifier) {
            Some(ZKTicketError::InvalidNullifier)
        } else if self.nullifier_map()[nullifier].used {
            Some(ZKTicketError::NullifierAlreadyUsed)
        } else if now > expires_at {
            Some(ZKTicketError::ProofExpired)
        } else if !self.initialized() {
            Some(ZKTicketError::NotInitialized)
        } else if self.revoked().contains(ticket_commitment) {
            Some(ZKTicketError::TicketRevoked)
        } else {
            match proof_check(proof_data, cm.commitment, attributes) {
                Err(e) => Some(e),
                Ok(_) => None,
            }
        }
    }

    /// Whether a list of identifiers holds `k`.
    fn holds_id(v: &Vec<Vec<u8>>, k: &Vec<u8>) -> (r: bool)
        ensures
            r == ids_view(v@).contains(k@),
    {
        let mut i: usize = 0;
        while i < v.len()
            invariant
                i <= v@.len(),
                forall|j: int| 0 <= j < i ==> #[trigger] v@[j]@ != k@,
            decreases v@.len() - i,
        {
            if bytes_eq(&v[i], k) {
                assert(ids_view(v@)[i as int] == k@);
                return true;
            }
            i = i + 1;
        }
        assert forall|j: int| 0 <= j < v@.len() implies #[trigger] ids_view(v@)[j] != k@ by {
            assert(ids_view(v@)[j] == v@[j]@);
        }
        false
    }

    /// Submits a proof of ownership of a ticket. The proof is checked against the
    /// ticket's commitment; once accepted it is stored, the nullifier is spent, the
    /// proof joins its owner's list and the result is cached. Errors: see
    /// `submit_error`.
    pub fn submit_proof(
        &mut self,
        env: &soroban_sdk::Env,
        proof_id: Vec<u8>,
        ticket_commitment: Vec<u8>,
        nullifier: Vec<u8>,
        event_id: u64,
        owner: u64,
        attributes: &Vec<ZKAttribute>,
        proof_data: Vec<u8>,
        expires_at: u64,
        now: u64,
    ) -> (r: Result<bool, ZKTicketError>)
        requires
            old(self).wf(),
            proof_data@.len() <= u32::MAX,
        ensures
            final(self).wf(),
            r is Err <==> old(self).submit_error(
                ticket_commitment@,
                nullifier@,
                event_id,
                attrs_view(attributes@),
                proof_data@,
                expires_at,
                now,
            ) is Some,
            r matches Err(e) ==> old(self).submit_error(
                ticket_commitment@,
                nullifier@,
                event_id,
                attrs_view(attributes@),
                proof_data@,
                expires_at,
                now,
            ) == Some(e),
            r is Err ==> *final(self) == *old(self),
            r is Ok ==> {
                let cm = old(self).commitment_map()[ticket_commitment@];
                let info = old(self).nullifier_map()[nullifier@];
                &&& r == Ok::<bool, ZKTicketError>(true)
                &&& final(self).proof_map() == old(self).proof_map().insert(
                    proof_id@,
                    ProofView {
                        proof_id: proof_id@,
                        ticket_commitment: ticket_commitment@,
                        nullifier: nullifier@,
                        event_id,
                        owner,
                        attributes: attrs_view(attributes@),
                        proof_data: proof_data@,
                        verification_hash: sha256_digest(proof_data@),
                        created_at: now,
                        verified_at: Some(now),
                        expires_at,
                        revoked: false,
                        batch_id: None,
                    },
                )
                &&& final(self).nullifier_map() == old(self).nullifier_map().insert(
                    nullifier@,
                    NullifierView { used: true, used_at: Some(now), proof_id: Some(proof_id@), ..info },
                )
                &&& final(self).user_map() == old(self).user_map().insert(
                    owner,
                    (if old(self).user_map().dom().contains(owner) {
                        old(self).user_map()[owner]
                    } else {
                        Seq::empty()
                    }).push(proof_id@),
                )
                &&& opt_cache_view(final(self).cache) == Some(
                    (sha256_digest(cache_message(proof_id@, now)), true, now, proof_id@),
                )
                &&& final(self).commitments == old(self).commitments
                &&& final(self).event_commitments == old(self).event_commitments
                &&& final(self).revocation == old(self).revocation
                &&& final(self).admin == old(self).admin
                &&& final(self).paused == old(self).paused
            },
    {
        if self.paused {
            return Err(ZKTicketError::ContractPaused);
        }
        let ci = match self.commitments.find(&ticket_commitment) {
            Some(i) => i,
            None => {
                return Err(ZKTicketError::InvalidCommitment);
            },
        };
        let cm = self.commitments.entries[ci].1.copy();
        if !cm.active {
            return Err(ZKTicketError::InvalidCommitment);
        }
        if cm.event_id != event_id {
            return Err(ZKTicketError::InvalidEventId);
        }
        let ni = match self.nullifiers.find(&nullifier) {
            Some(i) => i,
            None => {
                return Err(ZKTicketError::InvalidNullifier);
            },
        };
        let mut info = self.nullifiers.entries[ni].1.copy();
        if info.used {
            return Err(ZKTicketError::NullifierAlreadyUsed);
        }
        if now > expires_at {
            return Err(ZKTicketError::ProofExpired);
        }
        if self.admin.is_none() {
            return Err(ZKTicketError::NotInitialized);
        }
        let revoked = match &self.revocation {
            Some(rl) => Self::holds_id(&rl.revoked_commitments, &ticket_commitment),
            None => {
                return Err(ZKTicketError::NotInitialized);
            },
        };
        if revoked {
            return Err(ZKTicketError::TicketRevoked);
        }
        let verification_hash = match verify_zk_proof(env, &proof_data, attributes, &cm.commitment) {
            Ok(h) => h,
            Err(e) => {
                return Err(e);
            },
        };
        let proof = ZKProof {
            proof_id: copy_bytes(&proof_id),
            ticket_commitment,
            nullifier: copy_bytes(&nullifier),
            event_id,
            owner,
            attributes: copy_attrs(attributes),
            proof_data,
            verification_hash,
            created_at: now,
            verified_at: Some(now),
            expires_at,
            revoked: false,
            batch_id: None,
        };
        let ghost pv = proof@;
        let ghost old_p = self.proof_map();
        self.proofs.insert(copy_bytes(&proof_id), proof);
        assert(self.proof_map() =~= old_p.insert(proof_id@, pv));
        info.used = true;
        info.used_at = Some(now);
        info.proof_id = Some(copy_bytes(&proof_id));
        let ghost iv = info@;
        let ghost old_n = self.nullifier_map();
        self.nullifiers.set_at(ni, info);
        assert(self.nullifier_map() =~= old_n.insert(nullifier@, iv));
        let ghost old_u = self.user_map();
        match self.user_proofs.find(owner) {
            Some(ui) => {
                let mut list = copy_ids(&self.user_proofs.entries[ui].1);
                let ghost l0 = list@;
                list.push(copy_bytes(&proof_id));
                assert(ids_view(list@) =~= ids_view(l0).push(proof_id@));
                let ghost lv = ids_view(list@);
                self.user_proofs.set_at(ui, list);
                assert(self.user_map() =~= old_u.insert(owner, lv));
            },
            None => {
                let mut list: Vec<Vec<u8>> = Vec::new();
                list.push(copy_bytes(&proof_id));
                assert(ids_view(list@) =~= Seq::<Seq<u8>>::empty().push(proof_id@));
                let ghost lv = ids_view(list@);
                self.user_proofs.push_new(owner, list);
                assert(self.user_map() =~= old_u.insert(owner, lv));
            },
        }
        let key = generate_cache_key(env, &proof_id, now);
        self.cache = Some(VerificationCache { cache_key: key, result: true, timestamp: now, proof_id });
        Ok(true)
    }

    /// The outcome of verifying one stored proof at `now` with the cache `cache`, and
    /// the cache afterwards. An unknown, revoked or expired proof fails; a cached
    /// result for the proof at this time, not older than the cache's lifetime, is
    /// reused; a proof whose commitment is unknown fails; otherwise the proof is checked
    /// (see `proof_check`) and the result cached.
    pub open spec fn single_check(
        self,
        cache: Option<(Seq<u8>, bool, u64, Seq<u8>)>,
        pid: Seq<u8>,
        now: u64,
    ) -> (bool, Option<(Seq<u8>, bool, u64, Seq<u8>)>) {
        let p = self.proof_map()[pid];
        let key = sha256_digest(cache_message(pid, now));
        if !self.proof_map().dom().contains(pid) {
            (false, cache)
        } else if p.revoked || now > p.expires_at {
            (false, cache)
        } else if cache matches Some(c) && c.0 == key && now - c.2 < VERIFICATION_CACHE_TTL_SECONDS {
            (cache.unwrap().1, cache)
        } else if !self.commitment_map().dom().contains(p.ticket_commitment) {
            (false, cache)
        } else {
            let res = proof_check(
                p.proof_data,
                self.commitment_map()[p.ticket_commitment].commitment,
                p.attributes,
            ) is Ok;
            (res, Some((key, res, now, pid)))
        }
    }

    /// The results of verifying the proofs in order, and the cache afterwards.
    pub open spec fn run_checks(
        self,
        cache: Option<(Seq<u8>, bool, u64, Seq<u8>)>,
        ids: Seq<Seq<u8>>,
        now: u64,
    ) -> (Seq<bool>, Option<(Seq<u8>, bool, u64, Seq<u8>)>)
        decreases ids.len(),
    {
        if ids.len() == 0 {
            (Seq::empty(), cache)
        } else {
            let (rs, c) = self.run_checks(cache, ids.drop_last(), now);
            let (b, c2) = self.single_check(c, ids.last(), now);
            (rs.push(b), c2)
        }
    }

    /// Verifies one stored proof, updating the cache (see `single_check`).
    fn verify_single_proof(&mut self, env: &soroban_sdk::Env, proof_id: &Vec<u8>, now: u64) -> (r:
        bool)
        requires
            old(self).wf(),
            old(self).initialized(),
            old(self).cache matches Some(c) ==> c.timestamp <= now,
        ensures
            (r, opt_cache_view(final(self).cache)) == old(self).single_check(
                opt_cache_view(old(self).cache),
                proof_id@,
                now,
            ),
            *final(self) == (ZKTicketContract { cache: final(self).cache, ..*old(self) }),
            final(self).cache matches Some(c) ==> c.timestamp <= now,
    {
        let pi = match self.proofs.find(proof_id) {
            Some(i) => i,
            None => {
                return false;
            },
        };
        let p = &self.proofs.entries[pi].1;
        assert(self.proof_map()[proof_id@] == p@);
        if p.revoked || now > p.expires_at {
            return false;
        }
        let key = generate_cache_key(env, proof_id, now);
        match &self.cache {
            Some(c) => {
                let elapsed = now - c.timestamp;
                if bytes_eq(&c.cache_key, &key) && elapsed < VERIFICATION_CACHE_TTL_SECONDS {
                    return c.result;
                }
            },
            None => {},
        }
        let ci = match self.commitments.find(&p.ticket_commitment) {
            Some(i) => i,
            None => {
                return false;
            },
        };
        let commitment = &self.commitments.entries[ci].1.commitment;
        assert(self.proof_map().dom().contains(proof_id@));
        let result = verify_zk_proof(env, &p.proof_data, &p.attributes, commitment).is_ok();
        self.cache = Some(
            VerificationCache {
                cache_key: key,
                result,
                timestamp: now,
                proof_id: copy_bytes(proof_id),
            },
        );
        result
    }

    /// What a batch verification fails with, if anything: a contract not initialized,
    /// then paused.
    pub open spec fn batch_error(self) -> Option<ZKTicketError> {
        if !self.initialized() {
            Some(ZKTicketError::NotInitialized)
        } else if self.paused {
            Some(ZKTicketError::ContractPaused)
        } else {
            None
        }
    }

    /// Verifies a list of stored proofs in order (see `run_checks`) and records the
    /// results under a batch id, the digest of the count, the time and the ids (see
    /// `zk_batch_message`). Errors: see `batch_error`.
    #[verifier::loop_isolation(false)]
    pub fn batch_verify(
        &mut self,
        env: &soroban_sdk::Env,
        proof_ids: Vec<Vec<u8>>,
        now: u64,
    ) -> (r: Result<Vec<u8>, ZKTicketError>)
        requires
            old(self).wf(),
            proof_ids@.len() <= u32::MAX,
            old(self).cache matches Some(c) ==> c.timestamp <= now,
        ensures
            final(self).wf(),
            r is Err <==> old(self).batch_error() is Some,
            r matches Err(e) ==> old(self).batch_error() == Some(e),
            r is Err ==> *final(self) == *old(self),
            r matches Ok(bid) ==> {
                let (results, cache) = old(self).run_checks(
                    opt_cache_view(old(self).cache),
                    ids_view(proof_ids@),
                    now,
                );
                &&& bid@ == sha256_digest(zk_batch_message(ids_view(proof_ids@), now))
                &&& final(self).batches.map().dom() == old(self).batches.map().dom().insert(bid@)
                &&& batch_view(final(self).batches.map()[bid@]) == (
                    bid@,
                    ids_view(proof_ids@),
                    results,
                    now,
                    Some(now),
                    BatchStatus::Completed,
                )
                &&& opt_cache_view(final(self).cache) == cache
                &&& final(self).proofs == old(self).proofs
                &&& final(self).nullifiers == old(self).nullifiers
                &&& final(self).commitments == old(self).commitments
            },
    {
        if self.admin.is_none() {
            return Err(ZKTicketError::NotInitialized);
        }
        if self.paused {
            return Err(ZKTicketError::ContractPaused);
        }
        let bid = generate_batch_id(env, &proof_ids, now);
        let ghost s0 = *self;
        let ghost ids = ids_view(proof_ids@);
        let mut results: Vec<bool> = Vec::new();
        let mut i: usize = 0;
        assert(ids.take(0) =~= Seq::<Seq<u8>>::empty());
        while i < proof_ids.len()
            invariant
                i <= proof_ids@.len(),
                ids == ids_view(proof_ids@),
                *self == (ZKTicketContract { cache: self.cache, ..s0 }),
                self.wf(),
                self.initialized(),
                self.cache matches Some(c) ==> c.timestamp <= now,
                (results@, opt_cache_view(self.cache)) == s0.run_checks(
                    opt_cache_view(s0.cache),
                    ids.take(i as int),
                    now,
                ),
            decreases proof_ids@.len() - i,
        {
            assert(ids.take(i + 1).drop_last() =~= ids.take(i as int));
            assert(ids.take(i + 1).last() == proof_ids@[i as int]@);
            let ghost before = *self;
            assert(before.proof_map() == s0.proof_map());
            assert(before.commitment_map() == s0.commitment_map());
            let b = self.verify_single_proof(env, &proof_ids[i], now);
            results.push(b);
            i = i + 1;
        }
        assert(ids.take(i as int) =~= ids);
        let batch = BatchVerification {
            batch_id: copy_bytes(&bid),
            proofs: copy_ids(&proof_ids),
            results,
            created_at: now,
            completed_at: Some(now),
            status: BatchStatus::Completed,
        };
        let ghost bv = batch;
        self.batches.insert(copy_bytes(&bid), batch);
        assert(self.batches.map().dom() =~= s0.batches.map().dom().insert(bid@));
        Ok(bid)
    }

    /// What a mobile proof check fails with, if anything, in this order: a contract not
    /// initialized, paused; a proof past its expiry; too short a proof; a device's use
    /// count at `u32::MAX`.
    pub open spec fn mobile_error(
        self,
        device: Seq<u8>,
        template: Seq<u8>,
        proof_data: Seq<u8>,
        expires_at: u64,
        now: u64,
    ) -> Option<ZKTicketError> {
        if !self.initialized() {
            Some(ZKTicketError::NotInitialized)
        } else if self.paused {
            Some(ZKTicketError::ContractPaused)
        } else if now > expires_at {
            Some(ZKTicketError::ProofExpired)
        } else if mobile_check(template, proof_data) is Err {
            Some(ZKTicketError::MobileVerificationFailed)
        } else if self.mobile.map().dom().contains(device) && self.mobile.map()[device].usage_count
            == u32::MAX {
            Some(ZKTicketError::ArithmeticError)
        } else {
            None
        }
    }

    /// Checks a mobile proof (see `mobile_check`) and records the device's use: its
    /// last use becomes `now` and its count grows by one. Errors: see `mobile_error`.
    pub fn verify_mobile_proof(
        &mut self,
        env: &soroban_sdk::Env,
        mobile_device_id: Vec<u8>,
        proof_template: Vec<u8>,
        proof_data: &Vec<u8>,
        expires_at: u64,
        now: u64,
    ) -> (r: Result<bool, ZKTicketError>)
        requires
            old(self).wf(),
        ensures
            final(self).wf(),
            r is Err <==> old(self).mobile_error(
                mobile_device_id@,
                proof_template@,
                proof_data@,
                expires_at,
                now,
            ) is Some,
            r matches Err(e) ==> old(self).mobile_error(
                mobile_device_id@,
                proof_template@,
                proof_data@,
                expires_at,
                now,
            ) == Some(e),
            r is Err ==> *final(self) == *old(self),
            r matches Ok(b) ==> {
                let m = old(self).mobile.map();
                let k = mobile_device_id@;
                &&& mobile_check(proof_template@, proof_data@) == Ok::<bool, ZKTicketError>(b)
                &&& final(self).mobile.map().dom() == m.dom().insert(k)
                &&& mobile_view(final(self).mobile.map()[k]) == if m.dom().contains(k) {
                    (
                        m[k].mobile_device_id@,
                        m[k].proof_template@,
                        now,
                        (m[k].usage_count + 1) as u32,
                    )
                } else {
                    (k, proof_template@, now, 1u32)
                }
                &&& *final(self) == (ZKTicketContract { mobile: final(self).mobile, ..*old(self) })
            },
    {
        if self.admin.is_none() {
            return Err(ZKTicketError::NotInitialized);
        }
        if self.paused {
            return Err(ZKTicketError::ContractPaused);
        }
        if now > expires_at {
            return Err(ZKTicketError::ProofExpired);
        }
        let result = match verify_mobile_proof_internal(env, &proof_template, proof_data) {
            Ok(b) => b,
            Err(e) => {
                return Err(e);
            },
        };
        let ghost m0 = self.mobile.map();
        match self.mobile.find(&mobile_device_id) {
            Some(i) => {
                let cur = &self.mobile.entries[i].1;
                if cur.usage_count == u32::MAX {
                    return Err(ZKTicketError::ArithmeticError);
                }
                let rec = MobileProofData {
                    mobile_device_id: copy_bytes(&cur.mobile_device_id),
                    proof_template: copy_bytes(&cur.proof_template),
                    last_used: now,
                    usage_count: cur.usage_count + 1,
                };
                self.mobile.set_at(i, rec);
            },
            None => {
                let rec = MobileProofData {
                    mobile_device_id: copy_bytes(&mobile_device_id),
                    proof_template,
                    last_used: now,
                    usage_count: 1,
                };
                self.mobile.push_new(mobile_device_id, rec);
            },
        }
        assert(self.mobile.map().dom() =~= m0.dom().insert(mobile_device_id@));
        Ok(result)
    }

    /// What revealing attributes fails with, if anything, in this order: a contract not
    /// initialized, paused; an unknown proof, a revoked one, one past its expiry; kinds
    /// and values of different counts.
    pub open spec fn reveal_error(self, proof_id: Seq<u8>, kinds: nat, values: nat, now: u64) -> Option<
        ZKTicketError,
    > {
        let p = self.proof_map()[proof_id];
        if !self.initialized() {
            Some(ZKTicketError::NotInitialized)
        } else if self.paused {
            Some(ZKTicketError::ContractPaused)
        } else if !self.proof_map().dom().contains(proof_id) {
            Some(ZKTicketError::ProofNotFound)
        } else if p.revoked {
            Some(ZKTicketError::TicketRevoked)
        } else if now > p.expires_at {
            Some(ZKTicketError::ProofExpired)
        } else if kinds != values {
            Some(ZKTicketError::InvalidAttribute)
        } else {
            None
        }
    }

    /// Selectively discloses attributes of an accepted proof: for each kind in turn,
    /// the first attribute of that kind is marked revealed with the given value.
    /// Errors: see `reveal_error`.
    pub fn reveal_attributes(
        &mut self,
        proof_id: &Vec<u8>,
        attribute_types: &Vec<AttributeType>,
        reveal_data: &Vec<Vec<u8>>,
        now: u64,
    ) -> (r: Result<bool, ZKTicketError>)
        requires
            old(self).wf(),
        ensures
            final(self).wf(),
            r is Err <==> old(self).reveal_error(
                proof_id@,
                attribute_types@.len(),
                reveal_data@.len(),
                now,
            ) is Some,
            r matches Err(e) ==> old(self).reveal_error(
                proof_id@,
                attribute_types@.len(),
                reveal_data@.len(),
                now,
            ) == Some(e),
            r is Err ==> *final(self) == *old(self),
            r is Ok ==> {
                let p = old(self).proof_map()[proof_id@];
                &&& r == Ok::<bool, ZKTicketError>(true)
                &&& final(self).proof_map() == old(self).proof_map().insert(
                    proof_id@,
                    ProofView {
                        attributes: reveal_all(
                            p.attributes,
                            kinds_view(attribute_types@),
                            ids_view(reveal_data@),
                        ),
                        ..p
                    },
                )
                &&& *final(self) == (ZKTicketContract { proofs: final(self).proofs, ..*old(self) })
            },
    {
        if self.admin.is_none() {
            return Err(ZKTicketError::NotInitialized);
        }
        if self.paused {
            return Err(ZKTicketError::ContractPaused);
        }
        let pi = match self.proofs.find(proof_id) {
            Some(i) => i,
            None => {
                return Err(ZKTicketError::ProofNotFound);
            },
        };
        let mut p = self.proofs.entries[pi].1.copy();
        let ghost pv = p@;
        if p.revoked {
            return Err(ZKTicketError::TicketRevoked);
        }
        if now > p.expires_at {
            return Err(ZKTicketError::ProofExpired);
        }
        if attribute_types.len() != reveal_data.len() {
            return Err(ZKTicketError::InvalidAttribute);
        }
        let ghost kinds = kinds_view(attribute_types@);
        let ghost data = ids_view(reveal_data@);
        let mut i: usize = 0;
        assert(kinds.take(0) =~= Seq::<(int, Seq<char>)>::empty());
        while i < attribute_types.len()
            invariant
                i <= attribute_types@.len(),
                attribute_types@.len() == reveal_data@.len(),
                kinds == kinds_view(attribute_types@),
                data == ids_view(reveal_data@),
                p@ == (ProofView { attributes: p@.attributes, ..pv }),
                attrs_view(p.attributes@) == reveal_all(pv.attributes, kinds.take(i as int), data),
            decreases attribute_types@.len() - i,
        {
            reveal_in(&mut p.attributes, &attribute_types[i], &reveal_data[i]);
            assert(kinds.take(i + 1).drop_last() =~= kinds.take(i as int));
            assert(kinds.take(i + 1).last() == type_key(attribute_types@[i as int]));
            assert(data[i as int] == reveal_data@[i as int]@);
            i = i + 1;
        }
        assert(kinds.take(i as int) =~= kinds);
        let ghost nv = p@;
        let ghost old_p = self.proof_map();
        self.proofs.set_at(pi, p);
        assert(self.proof_map() =~= old_p.insert(proof_id@, nv));
        Ok(true)
    }

    /// What revoking a ticket fails with, if anything, in this order: a contract not
    /// initialized; an unknown commitment; one already inactive; a commitment whose
    /// event has no record.
    pub open spec fn revoke_error(self, commitment: Seq<u8>) -> Option<ZKTicketError> {
        let cm = self.commitment_map()[commitment];
        if !self.initialized() {
            Some(ZKTicketError::NotInitialized)
        } else if !self.commitment_map().dom().contains(commitment) {
            Some(ZKTicketError::InvalidCommitment)
        } else if !cm.active {
            Some(ZKTicketError::RevocationFailed)
        } else if !self.event_map().dom().contains(cm.event_id) {
            Some(ZKTicketError::InvalidEventId)
        } else {
            None
        }
    }

    /// Revokes a ticket: its commitment becomes inactive and joins the revocation list,
    /// and its event counts one active ticket fewer (not going below zero). Errors: see
    /// `revoke_error`.
    pub fn revoke_ticket(&mut self, ticket_commitment: &Vec<u8>, now: u64) -> (r: Result<
        (),
        ZKTicketError,
    >)
        requires
            old(self).wf(),
        ensures
            final(self).wf(),
            r is Err <==> old(self).revoke_error(ticket_commitment@) is Some,
            r matches Err(e) ==> old(self).revoke_error(ticket_commitment@) == Some(e),
            r is Err ==> *final(self) == *old(self),
            r is Ok ==> {
                let cm = old(self).commitment_map()[ticket_commitment@];
                let ev = old(self).event_map()[cm.event_id];
                &&& final(self).commitment_map() == old(self).commitment_map().insert(
                    ticket_commitment@,
                    CommitmentView { active: false, ..cm },
                )
                &&& final(self).revoked() == old(self).revoked().push(ticket_commitment@)
                &&& final(self).revocation.unwrap().last_updated == now
                &&& final(self).revocation.unwrap().revoked_nullifiers == old(
                    self,
                ).revocation.unwrap().revoked_nullifiers
                &&& final(self).event_map() == old(self).event_map().insert(
                    cm.event_id,
                    EventView {
                        active_tickets: if ev.active_tickets == 0 {
                            0
                        } else {
                            (ev.active_tickets - 1) as u32
                        },
                        ..ev
                    },
                )
                &&& final(self).proofs == old(self).proofs
                &&& final(self).nullifiers == old(self).nullifiers
                &&& final(self).admin == old(self).admin
                &&& final(self).paused == old(self).paused
                &&& final(self).circuit_params == old(self).circuit_params
            },
    {
        if self.admin.is_none() {
            return Err(ZKTicketError::NotInitialized);
        }
        let ci = match self.commitments.find(ticket_commitment) {
            Some(i) => i,
            None => {
                return Err(ZKTicketError::InvalidCommitment);
            },
        };
        let mut cm = self.commitments.entries[ci].1.copy();
        if !cm.active {
            return Err(ZKTicketError::RevocationFailed);
        }
        let ei = match self.event_commitments.find(cm.event_id) {
            Some(i) => i,
            None => {
                return Err(ZKTicketError::InvalidEventId);
            },
        };
        let mut rl = match self.revocation.take() {
            Some(rl) => rl,
            None => {
                return Err(ZKTicketError::NotInitialized);
            },
        };
        let ghost r0 = ids_view(rl.revoked_commitments@);
        rl.revoked_commitments.push(copy_bytes(ticket_commitment));
        rl.last_updated = now;
        assert(ids_view(rl.revoked_commitments@) =~= r0.push(ticket_commitment@));
        self.revocation = Some(rl);
        cm.active = false;
        let ghost cv = cm@;
        let ghost old_c = self.commitment_map();
        self.commitments.set_at(ci, cm);
        assert(self.commitment_map() =~= old_c.insert(ticket_commitment@, cv));
        let mut ev = self.event_commitments.entries[ei].1.copy();
        ev.active_tickets = if ev.active_tickets == 0 {
            0
        } else {
            ev.active_tickets - 1
        };
        let ghost evv = ev@;
        let ghost k = self.event_commitments.entries@[ei as int].0;
        let ghost old_e = self.event_map();
        self.event_commitments.set_at(ei, ev);
        assert(self.event_map() =~= old_e.insert(k, evv));
        Ok(())
    }

    /// Sets the pause flag. Errors: a contract not initialized.
    pub fn set_paused(&mut self, paused: bool) -> (r: Result<(), ZKTicketError>)
        requires
            old(self).wf(),
        ensures
            final(self).wf(),
            !old(self).initialized() <==> r is Err,
            r is Err ==> r == Err::<(), ZKTicketError>(ZKTicketError::NotInitialized),
            r is Err ==> *final(self) == *old(self),
            r is Ok ==> *final(self) == (ZKTicketContract { paused, ..*old(self) }),
    {
        if self.admin.is_none() {
            return Err(ZKTicketError::NotInitialized);
        }
        self.paused = paused;
        Ok(())
    }

    /// Pauses the contract. Errors: a contract not initialized.
    pub fn pause(&mut self) -> (r: Result<(), ZKTicketError>)
        requires
            old(self).wf(),
        ensures
            final(self).wf(),
            !old(self).initialized() <==> r is Err,
            r is Err ==> *final(self) == *old(self),
            r is Ok ==> *final(self) == (ZKTicketContract { paused: true, ..*old(self) }),
    {
        self.set_paused(true)
    }

    /// Resumes the contract. Errors: a contract not initialized.
    pub fn unpause(&mut self) -> (r: Result<(), ZKTicketError>)
        requires
            old(self).wf(),
        ensures
            final(self).wf(),
            !old(self).initialized() <==> r is Err,
            r is Err ==> *final(self) == *old(self),
            r is Ok ==> *final(self) == (ZKTicketContract { paused: false, ..*old(self) }),
    {
        self.set_paused(false)
    }

    /// Replaces the circuit parameters. Errors: a contract not initialized, then
    /// invalid parameters.
    pub fn update_circuit_params(&mut self, new_params: CircuitParameters) -> (r: Result<
        (),
        ZKTicketError,
    >)
        requires
            old(self).wf(),
        ensures
            final(self).wf(),
            !old(self).initialized() ==> r == Err::<(), ZKTicketError>(
                ZKTicketError::NotInitialized,
            ),
            old(self).initialized() && !params_valid(new_params@) ==> r == Err::<
                (),
                ZKTicketError,
            >(ZKTicketError::InvalidCircuitParams),
            old(self).initialized() && params_valid(new_params@) ==> r is Ok,
            r is Err ==> *final(self) == *old(self),
            r is Ok ==> final(self).params() == new_params@ && *final(self) == (ZKTicketContract {
                circuit_params: final(self).circuit_params,
                ..*old(self)
            }),
    {
        if self.admin.is_none() {
            return Err(ZKTicketError::NotInitialized);
        }
        match validate_circuit_params(&new_params) {
            Err(e) => Err(e),
            Ok(()) => {
                self.circuit_params = Some(new_params);
                Ok(())
            },
        }
    }

    /// An accepted proof. Errors: an unknown id.
    pub fn get_proof(&self, proof_id: &Vec<u8>) -> (r: Result<ZKProof, ZKTicketError>)
        requires
            self.wf(),
        ensures
            !self.proof_map().dom().contains(proof_id@) <==> r is Err,
            r is Err ==> r == Err::<ZKProof, ZKTicketError>(ZKTicketError::ProofNotFound),
            r matches Ok(p) ==> p@ == self.proof_map()[proof_id@],
    {
        match self.proofs.find(proof_id) {
            Some(i) => Ok(self.proofs.entries[i].1.copy()),
            None => Err(ZKTicketError::ProofNotFound),
        }
    }

    /// A ticket commitment. Errors: an unknown commitment.
    pub fn get_commitment(&self, commitment: &Vec<u8>) -> (r: Result<TicketCommitment, ZKTicketError>)
        requires
            self.wf(),
        ensures
            !self.commitment_map().dom().contains(commitment@) <==> r is Err,
            r is Err ==> r == Err::<TicketCommitment, ZKTicketError>(
                ZKTicketError::InvalidCommitment,
            ),
            r matches Ok(c) ==> c@ == self.commitment_map()[commitment@],
    {
        match self.commitments.find(commitment) {
            Some(i) => Ok(self.commitments.entries[i].1.copy()),
            None => Err(ZKTicketError::InvalidCommitment),
        }
    }

    /// A nullifier's record. Errors: an unknown nullifier.
    pub fn get_nullifier_info(&self, nullifier: &Vec<u8>) -> (r: Result<NullifierInfo, ZKTicketError>)
        requires
            self.wf(),
        ensures
            !self.nullifier_map().dom().contains(nullifier@) <==> r is Err,
            r is Err ==> r == Err::<NullifierInfo, ZKTicketError>(ZKTicketError::InvalidNullifier),
            r matches Ok(n) ==> n@ == self.nullifier_map()[nullifier@],
    {
        match self.nullifiers.find(nullifier) {
            Some(i) => Ok(self.nullifiers.entries[i].1.copy()),
            None => Err(ZKTicketError::InvalidNullifier),
        }
    }

    /// An event's commitments. Errors: an event without any.
    pub fn get_event_commitments(&self, event_id: u64) -> (r: Result<EventCommitments, ZKTicketError>)
        requires
            self.wf(),
        ensures
            !self.event_map().dom().contains(event_id) <==> r is Err,
            r is Err ==> r == Err::<EventCommitments, ZKTicketError>(ZKTicketError::InvalidEventId),
            r matches Ok(e) ==> e@ == self.event_map()[event_id],
    {
        match self.event_commitments.find(event_id) {
            Some(i) => Ok(self.event_commitments.entries[i].1.copy()),
            None => Err(ZKTicketError::InvalidEventId),
        }
    }

    /// The proofs an owner submitted, in order; none for an owner without any.
    pub fn get_user_proofs(&self, user: u64) -> (r: Vec<Vec<u8>>)
        requires
            self.wf(),
        ensures
            ids_view(r@) == if self.user_map().dom().contains(user) {
                self.user_map()[user]
            } else {
                Seq::empty()
            },
    {
        match self.user_proofs.find(user) {
            Some(i) => copy_ids(&self.user_proofs.entries[i].1),
            None => {
                let r: Vec<Vec<u8>> = Vec::new();
                assert(ids_view(r@) =~= Seq::<Seq<u8>>::empty());
                r
            },
        }
    }

    /// The revoked commitments. Errors: a contract not initialized.
    pub fn get_revoked_commitments(&self) -> (r: Result<Vec<Vec<u8>>, ZKTicketError>)
        requires
            self.wf(),
        ensures
            self.initialized() <==> r is Ok,
            r is Err ==> r == Err::<Vec<Vec<u8>>, ZKTicketError>(ZKTicketError::NotInitialized),
            r matches Ok(v) ==> ids_view(v@) == self.revoked(),
    {
        if self.admin.is_none() {
            return Err(ZKTicketError::NotInitialized);
        }
        match &self.revocation {
            Some(rl) => Ok(copy_ids(&rl.revoked_commitments)),
            None => Err(ZKTicketError::NotInitialized),
        }
    }

    /// A batch verification. Errors: an unknown batch id.
    pub fn get_batch_verification(&self, batch_id: &Vec<u8>) -> (r: Result<
        BatchVerification,
        ZKTicketError,
    >)
        requires
            self.wf(),
        ensures
            !self.batches.map().dom().contains(batch_id@) <==> r is Err,
            r is Err ==> r == Err::<BatchVerification, ZKTicketError>(ZKTicketError::BatchNotFound),
            r matches Ok(b) ==> batch_view(b) == batch_view(self.batches.map()[batch_id@]),
    {
        match self.batches.find(batch_id) {
            Some(i) => {
                let b = &self.batches.entries[i].1;
                Ok(
                    BatchVerification {
                        batch_id: copy_bytes(&b.batch_id),
                        proofs: copy_ids(&b.proofs),
                        results: copy_flags(&b.results),
                        created_at: b.created_at,
                        completed_at: b.completed_at,
                        status: b.status,
                    },
                )
            },
            None => Err(ZKTicketError::BatchNotFound),
        }
    }

    /// The revocation list. Errors: a contract not initialized.
    pub fn get_revocation_list(&self) -> (r: Result<RevocationList, ZKTicketError>)
        requires
            self.wf(),
        ensures
            !self.initialized() <==> r is Err,
            r is Err ==> r == Err::<RevocationList, ZKTicketError>(ZKTicketError::NotInitialized),
            r matches Ok(l) ==> ids_view(l.revoked_commitments@) == self.revoked()
                && ids_view(l.revoked_nullifiers@) == ids_view(
                self.revocation.unwrap().revoked_nullifiers@,
            ) && l.last_updated == self.revocation.unwrap().last_updated,
    {
        if self.admin.is_none() {
            return Err(ZKTicketError::NotInitialized);
        }
        match &self.revocation {
            Some(rl) => Ok(
                RevocationList {
                    revoked_commitments: copy_ids(&rl.revoked_commitments),
                    revoked_nullifiers: copy_ids(&rl.revoked_nullifiers),
                    last_updated: rl.last_updated,
                },
            ),
            None => Err(ZKTicketError::NotInitialized),
        }
    }

    /// The circuit parameters. Errors: a contract not initialized.
    pub fn get_circuit_params(&self) -> (r: Result<CircuitParameters, ZKTicketError>)
        requires
            self.wf(),
        ensures
            !self.initialized() <==> r is Err,
            r matches Ok(p) ==> p@ == self.params(),
    {
        if self.admin.is_none() {
            return Err(ZKTicketError::NotInitialized);
        }
        match &self.circuit_params {
            Some(p) => Ok(p.copy()),
            None => Err(ZKTicketError::NotInitialized),
        }
    }

    /// The contract version.
    pub fn version(&self) -> (r: u32)
        ensures
            r == self.version,
    {
        self.version
    }
}


/// Double-spend protection: a spent nullifier admits no further proof.
pub proof fn law_nullifier_single_use(
    z: ZKTicketContract,
    ticket_commitment: Seq<u8>,
    nullifier: Seq<u8>,
    event_id: u64,
    attributes: Seq<AttrView>,
    proof_data: Seq<u8>,
    expires_at: u64,
    now: u64,
)
    requires
        z.nullifier_map().dom().contains(nullifier),
        z.nullifier_map()[nullifier].used,
    ensures
        z.submit_error(ticket_commitment, nullifier, event_id, attributes, proof_data, expires_at, now)
            is Some,
{
}

/// A revoked ticket admits no proof.
pub proof fn law_revoked_ticket_unprovable(
    z: ZKTicketContract,
    ticket_commitment: Seq<u8>,
    nullifier: Seq<u8>,
    event_id: u64,
    attributes: Seq<AttrView>,
    proof_data: Seq<u8>,
    expires_at: u64,
    now: u64,
)
    requires
        z.initialized(),
        z.revoked().contains(ticket_commitment) || (z.commitment_map().dom().contains(
            ticket_commitment,
        ) && !z.commitment_map()[ticket_commitment].active),
    ensures
        z.submit_error(ticket_commitment, nullifier, event_id, attributes, proof_data, expires_at, now)
            is Some,
{
}

/// A proof past its expiry is refused, and so is one too short to check.
pub proof fn law_expired_or_short_proof_refused(
    z: ZKTicketContract,
    ticket_commitment: Seq<u8>,
    nullifier: Seq<u8>,
    event_id: u64,
    attributes: Seq<AttrView>,
    proof_data: Seq<u8>,
    expires_at: u64,
    now: u64,
)
    requires
        now > expires_at || proof_data.len() < crate::zk_ticket::MIN_ZK_PROOF_DATA_LEN,
    ensures
        z.submit_error(ticket_commitment, nullifier, event_id, attributes, proof_data, expires_at, now)
            is Some,
{
}

} // verus!
