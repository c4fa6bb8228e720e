//! Privacy-preserving tickets: an organizer commits to a ticket and its attributes,
//! and a holder later proves ownership by revealing the ticket's nullifier, which can
//! be spent once. Attributes can be disclosed selectively and tickets revoked.
use vstd::prelude::*;
use crate::crypto::{sha256, sha256_digest, le_bytes, push_le};
use crate::bytes::{copy_bytes, copy_ids, ids_view, append_bytes, append_all, concat_all, zero32, is_zero32};
use crate::access::str_eq;
use crate::zk_contract::ZKTicketContract;

verus! {

/// Minimum length of a full proof.
pub const MIN_ZK_PROOF_DATA_LEN: usize = 100;

/// Minimum length of a mobile proof.
pub const MIN_MOBILE_PROOF_DATA_LEN: usize = 50;

/// How long, in seconds, a cached verification result stays valid.
pub const VERIFICATION_CACHE_TTL_SECONDS: u64 = 300;

/// The kind of an attribute; a custom kind carries its name.
pub enum AttributeType {
    TicketId,
    EventId,
    OwnerIdentity,
    PurchaseDate,
    SeatNumber,
    TicketType,
    Price,
    ValidUntil,
    Custom(String),
}

/// What identifies an attribute kind: its variant and, for a custom kind, its name.
pub open spec fn type_key(t: AttributeType) -> (int, Seq<char>) {
    match t {
        AttributeType::TicketId => (0, Seq::empty()),
        AttributeType::EventId => (1, Seq::empty()),
        AttributeType::OwnerIdentity => (2, Seq::empty()),
        AttributeType::PurchaseDate => (3, Seq::empty()),
        AttributeType::SeatNumber => (4, Seq::empty()),
        AttributeType::TicketType => (5, Seq::empty()),
        AttributeType::Price => (6, Seq::empty()),
        AttributeType::ValidUntil => (7, Seq::empty()),
        AttributeType::Custom(s) => (8, s@),
    }
}

impl AttributeType {
    /// A copy of the kind.
    pub fn copy(&self) -> (r: Self)
        ensures
            type_key(r) == type_key(*self),
    {
        match self {
            AttributeType::TicketId => AttributeType::TicketId,
            AttributeType::EventId => AttributeType::EventId,
            AttributeType::OwnerIdentity => AttributeType::OwnerIdentity,
            AttributeType::PurchaseDate => AttributeType::PurchaseDate,
            AttributeType::SeatNumber => AttributeType::SeatNumber,
            AttributeType::TicketType => AttributeType::TicketType,
            AttributeType::Price => AttributeType::Price,
            AttributeType::ValidUntil => AttributeType::ValidUntil,
            AttributeType::Custom(s) => AttributeType::Custom(s.clone()),
        }
    }

    /// Whether two kinds are the same.
    pub fn same(&self, other: &Self) -> (r: bool)
        ensures
            r == (type_key(*self) == type_key(*other)),
    {
        match (self, other) {
            (AttributeType::TicketId, AttributeType::TicketId) => true,
            (AttributeType::EventId, AttributeType::EventId) => true,
            (AttributeType::OwnerIdentity, AttributeType::OwnerIdentity) => true,
            (AttributeType::PurchaseDate, AttributeType::PurchaseDate) => true,
            (AttributeType::SeatNumber, AttributeType::SeatNumber) => true,
            (AttributeType::TicketType, AttributeType::TicketType) => true,
            (AttributeType::Price, AttributeType::Price) => true,
            (AttributeType::ValidUntil, AttributeType::ValidUntil) => true,
            (AttributeType::Custom(a), AttributeType::Custom(b)) => str_eq(a, b),
            _ => false,
        }
    }
}

/// An attribute of a ticket; its value is meaningful once revealed.
pub struct ZKAttribute {
    pub attribute_type: AttributeType,
    pub value: Vec<u8>,
    pub revealed: bool,
    pub commitment: Vec<u8>,
}

/// The value of an attribute.
pub struct AttrView {
    pub kind: (int, Seq<char>),
    pub value: Seq<u8>,
    pub revealed: bool,
    pub commitment: Seq<u8>,
}

impl View for ZKAttribute {
    type V = AttrView;

    open spec fn view(&self) -> AttrView {
        AttrView {
            kind: type_key(self.attribute_type),
            value: self.value@,
            revealed: self.revealed,
            commitment: self.commitment@,
        }
    }
}

/// The values of a list of attributes.
pub open spec fn attrs_view(a: Seq<ZKAttribute>) -> Seq<AttrView> {
    a.map_values(|x: ZKAttribute| x@)
}

impl ZKAttribute {
    /// A copy of the attribute.
    pub fn copy(&self) -> (r: Self)
        ensures
            r@ == self@,
    {
        ZKAttribute {
            attribute_type: self.attribute_type.copy(),
            value: copy_bytes(&self.value),
            revealed: self.revealed,
            commitment: copy_bytes(&self.commitment),
        }
    }
}

/// A copy of a list of attributes.
pub fn copy_attrs(v: &Vec<ZKAttribute>) -> (r: Vec<ZKAttribute>)
    ensures
        attrs_view(r@) == attrs_view(v@),
{
    let mut r: Vec<ZKAttribute> = Vec::new();
    let mut i: usize = 0;
    while i < v.len()
        invariant
            i <= v@.len(),
            r@.len() == i,
            forall|j: int| 0 <= j < i ==> #[trigger] r@[j]@ == v@[j]@,
        decreases v@.len() - i,
    {
        r.push(v[i].copy());
        i = i + 1;
    }
    assert(attrs_view(r@) =~= attrs_view(v@));
    r
}

/// A proof of ownership that was accepted.
pub struct ZKProof {
    pub proof_id: Vec<u8>,
    pub ticket_commitment: Vec<u8>,
    pub nullifier: Vec<u8>,
    pub event_id: u64,
    pub owner: u64,
    pub attributes: Vec<ZKAttribute>,
    pub proof_data: Vec<u8>,
    pub verification_hash: Vec<u8>,
    pub created_at: u64,
    pub verified_at: Option<u64>,
    pub expires_at: u64,
    pub revoked: bool,
    pub batch_id: Option<Vec<u8>>,
}

/// The value of a proof.
pub struct ProofView {
    pub proof_id: Seq<u8>,
    pub ticket_commitment: Seq<u8>,
    pub nullifier: Seq<u8>,
    pub event_id: u64,
    pub owner: u64,
    pub attributes: Seq<AttrView>,
    pub proof_data: Seq<u8>,
    pub verification_hash: Seq<u8>,
    pub created_at: u64,
    pub verified_at: Option<u64>,
    pub expires_at: u64,
    pub revoked: bool,
    pub batch_id: Option<Seq<u8>>,
}

impl View for ZKProof {
    type V = ProofView;

    open spec fn view(&self) -> ProofView {
        ProofView {
            proof_id: self.proof_id@,
            ticket_commitment: self.ticket_commitment@,
            nullifier: self.nullifier@,
            event_id: self.event_id,
            owner: self.owner,
            attributes: attrs_view(self.attributes@),
            proof_data: self.proof_data@,
            verification_hash: self.verification_hash@,
            created_at: self.created_at,
            verified_at: self.verified_at,
            expires_at: self.expires_at,
            revoked: self.revoked,
            batch_id: match self.batch_id {
                Some(b) => Some(b@),
                None => None,
            },
        }
    }
}

impl ZKProof {
    /// A copy of the proof.
    pub fn copy(&self) -> (r: Self)
        ensures
            r@ == self@,
    {
        ZKProof {
            proof_id: copy_bytes(&self.proof_id),
            ticket_commitment: copy_bytes(&self.ticket_commitment),
            nullifier: copy_bytes(&self.nullifier),
            event_id: self.event_id,
            owner: self.owner,
            attributes: copy_attrs(&self.attributes),
            proof_data: copy_bytes(&self.proof_data),
            verification_hash: copy_bytes(&self.verification_hash),
            created_at: self.created_at,
            verified_at: self.verified_at,
            expires_at: self.expires_at,
            revoked: self.revoked,
            batch_id: match &self.batch_id {
                Some(b) => Some(copy_bytes(b)),
                None => None,
            },
        }
    }
}

/// The commitment to a ticket and its attributes.
pub struct TicketCommitment {
    pub commitment: Vec<u8>,
    pub event_id: u64,
    pub ticket_hash: Vec<u8>,
    pub created_at: u64,
    pub nullifier: Vec<u8>,
    pub attributes_hash: Vec<u8>,
    pub active: bool,
}

/// The value of a ticket commitment.
pub struct CommitmentView {
    pub commitment: Seq<u8>,
    pub event_id: u64,
    pub ticket_hash: Seq<u8>,
    pub created_at: u64,
    pub nullifier: Seq<u8>,
    pub attributes_hash: Seq<u8>,
    pub active: bool,
}

impl View for TicketCommitment {
    type V = CommitmentView;

    open spec fn view(&self) -> CommitmentView {
        CommitmentView {
            commitment: self.commitment@,
            event_id: self.event_id,
            ticket_hash: self.ticket_hash@,
            created_at: self.created_at,
            nullifier: self.nullifier@,
            attributes_hash: self.attributes_hash@,
            active: self.active,
        }
    }
}

impl TicketCommitment {
    /// A copy of the commitment record.
    pub fn copy(&self) -> (r: Self)
        ensures
            r@ == self@,
    {
        TicketCommitment {
            commitment: copy_bytes(&self.commitment),
            event_id: self.event_id,
            ticket_hash: copy_bytes(&self.ticket_hash),
            created_at: self.created_at,
            nullifier: copy_bytes(&self.nullifier),
            attributes_hash: copy_bytes(&self.attributes_hash),
            active: self.active,
        }
    }
}

/// Whether a nullifier has been spent, when and by which proof.
pub struct NullifierInfo {
    pub nullifier: Vec<u8>,
    pub used: bool,
    pub used_at: Option<u64>,
    pub proof_id: Option<Vec<u8>>,
}

/// The value of a nullifier record.
pub struct NullifierView {
    pub nullifier: Seq<u8>,
    pub used: bool,
    pub used_at: Option<u64>,
    pub proof_id: Option<Seq<u8>>,
}

impl View for NullifierInfo {
    type V = NullifierView;

    open spec fn view(&self) -> NullifierView {
        NullifierView {
            nullifier: self.nullifier@,
            used: self.used,
            used_at: self.used_at,
            proof_id: match self.proof_id {
                Some(p) => Some(p@),
                None => None,
            },
        }
    }
}

impl NullifierInfo {
    /// A copy of the record.
    pub fn copy(&self) -> (r: Self)
        ensures
            r@ == self@,
    {
        NullifierInfo {
            nullifier: copy_bytes(&self.nullifier),
            used: self.used,
            used_at: self.used_at,
            proof_id: match &self.proof_id {
                Some(p) => Some(copy_bytes(p)),
                None => None,
            },
        }
    }
}

/// The parameters of the proof circuit.
pub struct CircuitParameters {
    pub circuit_hash: Vec<u8>,
    pub proving_key_hash: Vec<u8>,
    pub verification_key_hash: Vec<u8>,
    pub attribute_count: u32,
    pub public_inputs: u32,
    pub private_inputs: u32,
}

/// The value of circuit parameters.
pub struct ParamsView {
    pub circuit_hash: Seq<u8>,
    pub proving_key_hash: Seq<u8>,
    pub verification_key_hash: Seq<u8>,
    pub attribute_count: u32,
    pub public_inputs: u32,
    pub private_inputs: u32,
}

impl View for CircuitParameters {
    type V = ParamsView;

    open spec fn view(&self) -> ParamsView {
        ParamsView {
            circuit_hash: self.circuit_hash@,
            proving_key_hash: self.proving_key_hash@,
            verification_key_hash: self.verification_key_hash@,
            attribute_count: self.attribute_count,
            public_inputs: self.public_inputs,
            private_inputs: self.private_inputs,
        }
    }
}

impl CircuitParameters {
    /// A copy of the parameters.
    pub fn copy(&self) -> (r: Self)
        ensures
            r@ == self@,
    {
        CircuitParameters {
            circuit_hash: copy_bytes(&self.circuit_hash),
            proving_key_hash: copy_bytes(&self.proving_key_hash),
            verification_key_hash: copy_bytes(&self.verification_key_hash),
            attribute_count: self.attribute_count,
            public_inputs: self.public_inputs,
            private_inputs: self.private_inputs,
        }
    }
}

/// The commitments issued for one event.
pub struct EventCommitments {
    pub event_id: u64,
    pub commitments: Vec<Vec<u8>>,
    pub total_tickets: u32,
    pub active_tickets: u32,
    pub created_at: u64,
    pub circuit_params: CircuitParameters,
}

/// The last verification result, kept for a short while.
pub struct VerificationCache {
    pub cache_key: Vec<u8>,
    pub result: bool,
    pub timestamp: u64,
    pub proof_id: Vec<u8>,
}

/// The revoked commitments and nullifiers.
pub struct RevocationList {
    pub revoked_commitments: Vec<Vec<u8>>,
    pub revoked_nullifiers: Vec<Vec<u8>>,
    pub last_updated: u64,
}

/// Lifecycle status of a batch verification.
#[derive(Debug, Clone, Copy, PartialEq, Eq, Structural)]
pub enum BatchStatus {
    Pending,
    Processing,
    Completed,
    Failed,
}

/// The results of verifying a list of proofs together.
pub struct BatchVerification {
    pub batch_id: Vec<u8>,
    pub proofs: Vec<Vec<u8>>,
    pub results: Vec<bool>,
    pub created_at: u64,
    pub completed_at: Option<u64>,
    pub status: BatchStatus,
}

/// Usage of a mobile device's proofs.
pub struct MobileProofData {
    pub mobile_device_id: Vec<u8>,
    pub proof_template: Vec<u8>,
    pub last_used: u64,
    pub usage_count: u32,
}

/// Errors of the ticket-proof contract.
#[derive(Debug, Clone, Copy, PartialEq, Eq, Structural)]
pub enum ZKTicketError {
    AlreadyInitialized,
    NotInitialized,
    Unauthorized,
    ProofNotFound,
    InvalidProof,
    ProofExpired,
    NullifierAlreadyUsed,
    InvalidCommitment,
    TicketRevoked,
    VerificationFailed,
    InvalidAttribute,
    InvalidCircuitParams,
    BatchNotFound,
    BatchProcessing,
    MobileVerificationFailed,
    InvalidSignature,
    AttributeNotRevealed,
    DuplicateCommitment,
    InvalidEventId,
    InsufficientAttributes,
    ProofTooLarge,
    CircuitMismatch,
    RevocationFailed,
    CacheExpired,
    BatchSizeExceeded,
    InvalidNullifier,
    InvalidTimestamp,
    ContractPaused,
    ArithmeticError,
}

/// Circuit parameters are valid when the attribute count and both input counts are
/// positive.
pub open spec fn params_valid(p: ParamsView) -> bool {
    p.attribute_count > 0 && p.public_inputs > 0 && p.private_inputs > 0
}

/// Checks circuit parameters.
pub fn validate_circuit_params(params: &CircuitParameters) -> (r: Result<(), ZKTicketError>)
    ensures
        r is Ok <==> params_valid(params@),
        r is Err ==> r == Err::<(), ZKTicketError>(ZKTicketError::InvalidCircuitParams),
{
    if params.attribute_count == 0 || params.public_inputs == 0 || params.private_inputs == 0 {
        Err(ZKTicketError::InvalidCircuitParams)
    } else {
        Ok(())
    }
}

/// Whether some attribute in the list is of kind `k`.
pub open spec fn has_kind(a: Seq<AttrView>, k: (int, Seq<char>)) -> bool {
    exists|i: int| 0 <= i < a.len() && #[trigger] a[i].kind == k
}

/// Attributes are acceptable when there is at least one and they include a ticket id
/// and an event id.
pub open spec fn attributes_ok(a: Seq<AttrView>) -> bool {
    a.len() > 0 && has_kind(a, type_key(AttributeType::TicketId)) && has_kind(
        a,
        type_key(AttributeType::EventId),
    )
}

/// Whether the list holds an attribute of the given kind.
fn holds_kind(attributes: &Vec<ZKAttribute>, kind: &AttributeType) -> (r: bool)
    ensures
        r == has_kind(attrs_view(attributes@), type_key(*kind)),
{
    let mut i: usize = 0;
    while i < attributes.len()
        invariant
            i <= attributes@.len(),
            forall|j: int| 0 <= j < i ==> #[trigger] attributes@[j]@.kind != type_key(*kind),
        decreases attributes@.len() - i,
    {
        if attributes[i].attribute_type.same(kind) {
            assert(attrs_view(attributes@)[i as int].kind == type_key(*kind));
            return true;
        }
        i = i + 1;
    }
    assert forall|j: int| 0 <= j < attributes@.len() implies #[trigger] attrs_view(
        attributes@,
    )[j].kind != type_key(*kind) by {
        assert(attrs_view(attributes@)[j] == attributes@[j]@);
    }
    false
}

impl ZKTicketContract {
    /// Checks that the attributes are not empty and include a ticket id and an event id.
    pub fn validate_attributes(attributes: &Vec<ZKAttribute>) -> (r: Result<(), ZKTicketError>)
        ensures
            r is Ok <==> attributes_ok(attrs_view(attributes@)),
            r is Err ==> r == Err::<(), ZKTicketError>(ZKTicketError::InsufficientAttributes),
    {
        if attributes.len() == 0 {
            return Err(ZKTicketError::InsufficientAttributes);
        }
        let has_ticket_id = holds_kind(attributes, &AttributeType::TicketId);
        let has_event_id = holds_kind(attributes, &AttributeType::EventId);
        if !has_ticket_id || !has_event_id {
            return Err(ZKTicketError::InsufficientAttributes);
        }
        Ok(())
    }
}

/// The concatenation of the attributes' commitments.
pub open spec fn attr_commitments(a: Seq<AttrView>) -> Seq<u8>
    decreases a.len(),
{
    if a.len() == 0 {
        Seq::empty()
    } else {
        attr_commitments(a.drop_last()) + a.last().commitment
    }
}

/// The concatenation of the attributes' values, each after its 4-byte length.
pub open spec fn attr_values(a: Seq<AttrView>) -> Seq<u8>
    decreases a.len(),
{
    if a.len() == 0 {
        Seq::empty()
    } else {
        attr_values(a.drop_last()) + le_bytes(a.last().value.len(), 4) + a.last().value
    }
}

/// Appends the attributes' commitments.
fn append_commitments(out: &mut Vec<u8>, attributes: &Vec<ZKAttribute>)
    ensures
        final(out)@ == old(out)@ + attr_commitments(attrs_view(attributes@)),
{
    let ghost start = out@;
    let ghost a = attrs_view(attributes@);
    let mut i: usize = 0;
    assert(a.take(0) =~= Seq::<AttrView>::empty());
    while i < attributes.len()
        invariant
            i <= attributes@.len(),
            a == attrs_view(attributes@),
            out@ == start + attr_commitments(a.take(i as int)),
        decreases attributes@.len() - i,
    {
        append_bytes(out, &attributes[i].commitment);
        assert(a.take(i + 1).drop_last() =~= a.take(i as int));
        assert(a.take(i + 1).last() == attributes@[i as int]@);
        i = i + 1;
        assert(out@ =~= start + attr_commitments(a.take(i as int)));
    }
    assert(a.take(i as int) =~= a);
}

/// The bytes hashed into a ticket commitment: the ticket hash, the nullifier and the
/// attributes' commitments.
pub open spec fn commitment_message(ticket_hash: Seq<u8>, nullifier: Seq<u8>, a: Seq<AttrView>)
    -> Seq<u8> {
    ticket_hash + nullifier + attr_commitments(a)
}

/// The commitment to a ticket: the digest of `commitment_message`.
pub fn calculate_commitment(
    env: &soroban_sdk::Env,
    ticket_hash: &Vec<u8>,
    attributes: &Vec<ZKAttribute>,
    nullifier: &Vec<u8>,
) -> (r: Vec<u8>)
    ensures
        r@ == sha256_digest(commitment_message(ticket_hash@, nullifier@, attrs_view(attributes@))),
{
    let mut data: Vec<u8> = Vec::new();
    append_bytes(&mut data, ticket_hash);
    append_bytes(&mut data, nullifier);
    append_commitments(&mut data, attributes);
    assert(data@ =~= commitment_message(ticket_hash@, nullifier@, attrs_view(attributes@)));
    sha256(env, &data)
}

/// The digest of the attributes' values (see `attr_values`).
pub fn calculate_attributes_hash(env: &soroban_sdk::Env, attributes: &Vec<ZKAttribute>) -> (r:
    Vec<u8>)
    requires
        forall|i: int| 0 <= i < attributes@.len() ==> #[trigger] attributes@[i].value@.len() <= u32::MAX,
    ensures
        r@ == sha256_digest(attr_values(attrs_view(attributes@))),
{
    let ghost a = attrs_view(attributes@);
    let mut data: Vec<u8> = Vec::new();
    let mut i: usize = 0;
    assert(a.take(0) =~= Seq::<AttrView>::empty());
    while i < attributes.len()
        invariant
            i <= attributes@.len(),
            a == attrs_view(attributes@),
            forall|j: int| 0 <= j < attributes@.len() ==> #[trigger] attributes@[j].value@.len() <= u32::MAX,
            data@ == attr_values(a.take(i as int)),
        decreases attributes@.len() - i,
    {
        let ghost before = data@;
        push_le(&mut data, attributes[i].value.len() as u128, 4);
        append_bytes(&mut data, &attributes[i].value);
        assert(a.take(i + 1).drop_last() =~= a.take(i as int));
        assert(a.take(i + 1).last() == attributes@[i as int]@);
        i = i + 1;
        assert(data@ =~= attr_values(a.take(i as int)));
    }
    assert(a.take(i as int) =~= a);
    sha256(env, &data)
}

/// The bytes hashed to check a proof: the proof's length and bytes, the ticket
/// commitment and the attributes' commitments.
pub open spec fn check_message(proof_data: Seq<u8>, commitment: Seq<u8>, a: Seq<AttrView>) -> Seq<
    u8,
> {
    le_bytes(proof_data.len(), 4) + proof_data + commitment + attr_commitments(a)
}

/// The outcome of checking a proof against a commitment: too short a proof is
/// invalid; a check digest of 32 zero bytes fails; otherwise the result is the
/// digest of the proof bytes.
pub open spec fn proof_check(proof_data: Seq<u8>, commitment: Seq<u8>, a: Seq<AttrView>) -> Result<
    Seq<u8>,
    ZKTicketError,
> {
    if proof_data.len() < MIN_ZK_PROOF_DATA_LEN {
        Err(ZKTicketError::InvalidProof)
    } else if sha256_digest(check_message(proof_data, commitment, a)) == zero32() {
        Err(ZKTicketError::VerificationFailed)
    } else {
        Ok(sha256_digest(proof_data))
    }
}

/// Checks a proof against a commitment (see `proof_check`).
pub fn verify_zk_proof(
    env: &soroban_sdk::Env,
    proof_data: &Vec<u8>,
    attributes: &Vec<ZKAttribute>,
    commitment: &Vec<u8>,
) -> (r: Result<Vec<u8>, ZKTicketError>)
    requires
        proof_data@.len() <= u32::MAX,
    ensures
        match r {
            Ok(h) => proof_check(proof_data@, commitment@, attrs_view(attributes@)) == Ok::<
                Seq<u8>,
                ZKTicketError,
            >(h@),
            Err(e) => proof_check(proof_data@, commitment@, attrs_view(attributes@)) == Err::<
                Seq<u8>,
                ZKTicketError,
            >(e),
        },
{
    if proof_data.len() < MIN_ZK_PROOF_DATA_LEN {
        return Err(ZKTicketError::InvalidProof);
    }
    let proof_hash = sha256(env, proof_data);
    let mut data: Vec<u8> = Vec::new();
    push_le(&mut data, proof_data.len() as u128, 4);
    append_bytes(&mut data, proof_data);
    append_bytes(&mut data, commitment);
    append_commitments(&mut data, attributes);
    assert(data@ =~= check_message(proof_data@, commitment@, attrs_view(attributes@)));
    let h = sha256(env, &data);
    if is_zero32(&h) {
        return Err(ZKTicketError::VerificationFailed);
    }
    Ok(proof_hash)
}

/// The bytes hashed into a verification cache key: the proof id and the time.
pub open spec fn cache_message(proof_id: Seq<u8>, now: u64) -> Seq<u8> {
    proof_id + le_bytes(now as nat, 8)
}

/// The cache key of a proof at a time: the digest of `cache_message`.
pub fn generate_cache_key(env: &soroban_sdk::Env, proof_id: &Vec<u8>, now: u64) -> (r: Vec<u8>)
    ensures
        r@ == sha256_digest(cache_message(proof_id@, now)),
{
    let mut data: Vec<u8> = Vec::new();
    append_bytes(&mut data, proof_id);
    push_le(&mut data, now as u128, 8);
    sha256(env, &data)
}

/// The bytes hashed into a batch verification id: the number of proofs, the time and
/// the proof ids.
pub open spec fn zk_batch_message(ids: Seq<Seq<u8>>, now: u64) -> Seq<u8> {
    le_bytes(ids.len(), 4) + le_bytes(now as nat, 8) + concat_all(ids)
}

/// The id of a batch verification: the digest of `zk_batch_message`.
pub fn generate_batch_id(env: &soroban_sdk::Env, proof_ids: &Vec<Vec<u8>>, now: u64) -> (r: Vec<
    u8,
>)
    requires
        proof_ids@.len() <= u32::MAX,
    ensures
        r@ == sha256_digest(zk_batch_message(ids_view(proof_ids@), now)),
{
    let mut data: Vec<u8> = Vec::new();
    push_le(&mut data, proof_ids.len() as u128, 4);
    push_le(&mut data, now as u128, 8);
    append_all(&mut data, proof_ids);
    sha256(env, &data)
}

/// The outcome of checking a mobile proof: too short a proof fails; otherwise it
/// passes when neither the template's nor the proof's digest is 32 zero bytes.
pub open spec fn mobile_check(template: Seq<u8>, proof_data: Seq<u8>) -> Result<bool, ZKTicketError> {
    if proof_data.len() < MIN_MOBILE_PROOF_DATA_LEN {
        Err(ZKTicketError::MobileVerificationFailed)
    } else {
        Ok(sha256_digest(template) != zero32() && sha256_digest(proof_data) != zero32())
    }
}

/// Checks a mobile proof (see `mobile_check`).
pub fn verify_mobile_proof_internal(
    env: &soroban_sdk::Env,
    proof_template: &Vec<u8>,
    proof_data: &Vec<u8>,
) -> (r: Result<bool, ZKTicketError>)
    ensures
        r == mobile_check(proof_template@, proof_data@),
{
    if proof_data.len() < MIN_MOBILE_PROOF_DATA_LEN {
        return Err(ZKTicketError::MobileVerificationFailed);
    }
    let template_hash = sha256(env, proof_template);
    let proof_hash = sha256(env, proof_data);
    Ok(!is_zero32(&template_hash) && !is_zero32(&proof_hash))
}

} // verus!
