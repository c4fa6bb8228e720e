//! Feature flags: flags per environment with gradual, segmented, time-based or
//! per-user rollouts, a kill switch, A/B tests with traffic allocations, rollout plans
//! and user segments. Authorization and events are the host's; on any error an
//! operation leaves the state as it was.
use vstd::prelude::*;
use crate::crypto::{sha256, sha256_digest, le_bytes, push_le};
use crate::table::{Table, StrTable};
use crate::access::str_eq;

verus! {

/// A value of the contract host, carried through unread.
#[verifier::external_type_specification]
#[verifier::external_body]
pub struct ExVal(soroban_sdk::Val);

/// Seconds in a day.
pub const DAY_SECONDS: u64 = 86400;

/// A deployment environment.
#[derive(Debug, Clone, Copy, PartialEq, Eq, Structural)]
pub enum Environment {
    Development,
    Staging,
    Production,
    Testing,
}

/// How a condition compares.
#[derive(Debug, Clone, Copy, PartialEq, Eq, Structural)]
pub enum ComparisonOperator {
    Equals,
    NotEquals,
    GreaterThan,
    LessThan,
    GreaterThanOrEqual,
    LessThanOrEqual,
    Contains,
    NotContains,
    In,
    NotIn,
}

/// The lifecycle of an A/B test.
#[derive(Debug, Clone, Copy, PartialEq, Eq, Structural)]
pub enum ABTestStatus {
    Draft,
    Running,
    Paused,
    Completed,
    Cancelled,
}

/// How a flag reaches users.
#[derive(Debug, Clone, Copy, PartialEq, Eq, Structural)]
pub enum RolloutStrategy {
    Immediate,
    Gradual,
    Segmented,
    TimeBased,
    UserBased,
}

/// Errors of the feature flag contract.
#[derive(Debug, Clone, Copy, PartialEq, Eq, Structural)]
pub enum FeatureFlagError {
    AlreadyInitialized,
    NotInitialized,
    Unauthorized,
    FlagNotFound,
    InvalidFlagKey,
    InvalidPercentage,
    InvalidEnvironment,
    InvalidSegment,
    InvalidRule,
    InvalidABTest,
    ABTestNotFound,
    InvalidRolloutPlan,
    RolloutPlanNotFound,
    InvalidVariant,
    UserNotFound,
    InvalidCondition,
    InvalidOperator,
    InvalidValue,
    KillSwitchActive,
    FlagDisabled,
    TestNotRunning,
    InvalidTimeRange,
    DuplicateFlag,
    DuplicateSegment,
    DuplicateTest,
    InvalidTrafficAllocation,
    InsufficientSampleSize,
    ConfidenceThresholdNotMet,
    ContractPaused,
    StorageError,
    SerializationError,
}

/// The texts of a list of names.
pub open spec fn names(v: Seq<String>) -> Seq<Seq<char>> {
    v.map_values(|s: String| s@)
}

/// A copy of a list of names.
pub fn copy_names(v: &Vec<String>) -> (r: Vec<String>)
    ensures
        names(r@) == names(v@),
{
    let mut r: Vec<String> = Vec::new();
    let mut i: usize = 0;
    while i < v.len()
        invariant
            i <= v@.len(),
            r@.len() == i,
            forall|j: int| 0 <= j < i ==> #[trigger] r@[j]@ == v@[j]@,
        decreases v@.len() - i,
    {
        r.push(v[i].clone());
        i = i + 1;
    }
    assert(names(r@) =~= names(v@));
    r
}

/// Named host values, as a list of pairs.
pub struct Attributes {
    pub entries: Vec<(String, soroban_sdk::Val)>,
}

/// The names of the attributes.
pub open spec fn attr_names(a: Seq<(String, soroban_sdk::Val)>) -> Seq<Seq<char>> {
    a.map_values(|p: (String, soroban_sdk::Val)| p.0@)
}

/// The attributes as (name, value) pairs.
pub open spec fn attr_pairs(a: Seq<(String, soroban_sdk::Val)>) -> Seq<(Seq<char>, soroban_sdk::Val)> {
    a.map_values(|p: (String, soroban_sdk::Val)| (p.0@, p.1))
}

impl Attributes {
    /// A copy of the attributes.
    pub fn copy(&self) -> (r: Self)
        ensures
            attr_names(r.entries@) == attr_names(self.entries@),
            attr_pairs(r.entries@) == attr_pairs(self.entries@),
            r.entries@.len() == self.entries@.len(),
            forall|i: int| 0 <= i < r.entries@.len() ==> #[trigger] r.entries@[i].1 == self.entries@[i].1,
    {
        let mut v: Vec<(String, soroban_sdk::Val)> = Vec::new();
        let mut i: usize = 0;
        while i < self.entries.len()
            invariant
                i <= self.entries@.len(),
                v@.len() == i,
                forall|j: int|
                    0 <= j < i ==> (#[trigger] v@[j]).0@ == self.entries@[j].0@ && v@[j].1
                        == self.entries@[j].1,
            decreases self.entries@.len() - i,
        {
            let val = self.entries[i].1;
            v.push((self.entries[i].0.clone(), val));
            i = i + 1;
        }
        assert(attr_names(v@) =~= attr_names(self.entries@));
        assert(attr_pairs(v@) =~= attr_pairs(self.entries@));
        Attributes { entries: v }
    }
}

/// A condition on a named value of the context.
pub struct Condition {
    pub field: String,
    pub operator: ComparisonOperator,
    pub value: soroban_sdk::Val,
    pub weight: u32,
}

/// The value of a condition.
pub open spec fn condition_view(c: Condition) -> (Seq<char>, ComparisonOperator, soroban_sdk::Val, u32) {
    (c.field@, c.operator, c.value, c.weight)
}

/// The values of a list of conditions.
pub open spec fn conditions_view(v: Seq<Condition>) -> Seq<(Seq<char>, ComparisonOperator, soroban_sdk::Val, u32)> {
    v.map_values(|c: Condition| condition_view(c))
}

/// A copy of a list of conditions.
pub fn copy_conditions(v: &Vec<Condition>) -> (r: Vec<Condition>)
    ensures
        conditions_view(r@) == conditions_view(v@),
{
    let mut r: Vec<Condition> = Vec::new();
    let mut i: usize = 0;
    while i < v.len()
        invariant
            i <= v@.len(),
            r@.len() == i,
            forall|j: int| 0 <= j < i ==> condition_view(#[trigger] r@[j]) == condition_view(v@[j]),
        decreases v@.len() - i,
    {
        let c = &v[i];
        let value = c.value;
        r.push(Condition { field: c.field.clone(), operator: c.operator, value, weight: c.weight });
        i = i + 1;
    }
    assert(conditions_view(r@) =~= conditions_view(v@));
    r
}

/// A targeting rule: conditions that select users, by priority.
pub struct SegmentRule {
    pub id: String,
    pub name: String,
    pub conditions: Vec<Condition>,
    pub priority: u32,
    pub active: bool,
}

/// The value of a rule.
pub open spec fn rule_view(r: SegmentRule) -> (
    Seq<char>,
    Seq<char>,
    Seq<(Seq<char>, ComparisonOperator, soroban_sdk::Val, u32)>,
    u32,
    bool,
) {
    (r.id@, r.name@, conditions_view(r.conditions@), r.priority, r.active)
}

/// The values of a list of rules.
pub open spec fn rules_view(v: Seq<SegmentRule>) -> Seq<
    (Seq<char>, Seq<char>, Seq<(Seq<char>, ComparisonOperator, soroban_sdk::Val, u32)>, u32, bool),
> {
    v.map_values(|r: SegmentRule| rule_view(r))
}

/// A copy of a list of rules.
pub fn copy_rules(v: &Vec<SegmentRule>) -> (r: Vec<SegmentRule>)
    ensures
        rules_view(r@) == rules_view(v@),
{
    let mut r: Vec<SegmentRule> = Vec::new();
    let mut i: usize = 0;
    while i < v.len()
        invariant
            i <= v@.len(),
            r@.len() == i,
            forall|j: int| 0 <= j < i ==> rule_view(#[trigger] r@[j]) == rule_view(v@[j]),
        decreases v@.len() - i,
    {
        let x = &v[i];
        r.push(
            SegmentRule {
                id: x.id.clone(),
                name: x.name.clone(),
                conditions: copy_conditions(&x.conditions),
                priority: x.priority,
                active: x.active,
            },
        );
        i = i + 1;
    }
    assert(rules_view(r@) =~= rules_view(v@));
    r
}

/// A feature flag.
pub struct FeatureFlag {
    pub key: String,
    pub enabled: bool,
    pub rollout_percentage: u32,
    pub environment: Environment,
    pub segments: Vec<String>,
    pub rules: Vec<SegmentRule>,
    pub created_at: u64,
    pub updated_at: u64,
    pub created_by: u64,
    pub description: String,
    pub tags: Vec<String>,
    pub kill_switch_active: bool,
    pub rollout_strategy: RolloutStrategy,
}

/// The value of a flag.
pub struct FlagView {
    pub key: Seq<char>,
    pub enabled: bool,
    pub rollout_percentage: u32,
    pub environment: Environment,
    pub segments: Seq<Seq<char>>,
    pub rules: Seq<(Seq<char>, Seq<char>, Seq<(Seq<char>, ComparisonOperator, soroban_sdk::Val, u32)>, u32, bool)>,
    pub created_at: u64,
    pub updated_at: u64,
    pub created_by: u64,
    pub description: Seq<char>,
    pub tags: Seq<Seq<char>>,
    pub kill_switch_active: bool,
    pub rollout_strategy: RolloutStrategy,
}

impl View for FeatureFlag {
    type V = FlagView;

    open spec fn view(&self) -> FlagView {
        FlagView {
            key: self.key@,
            enabled: self.enabled,
            rollout_percentage: self.rollout_percentage,
            environment: self.environment,
            segments: names(self.segments@),
            rules: rules_view(self.rules@),
            created_at: self.created_at,
            updated_at: self.updated_at,
            created_by: self.created_by,
            description: self.description@,
            tags: names(self.tags@),
            kill_switch_active: self.kill_switch_active,
            rollout_strategy: self.rollout_strategy,
        }
    }
}

impl FeatureFlag {
    /// A copy of the flag.
    pub fn copy(&self) -> (r: Self)
        ensures
            r@ == self@,
    {
        FeatureFlag {
            key: self.key.clone(),
            enabled: self.enabled,
            rollout_percentage: self.rollout_percentage,
            environment: self.environment,
            segments: copy_names(&self.segments),
            rules: copy_rules(&self.rules),
            created_at: self.created_at,
            updated_at: self.updated_at,
            created_by: self.created_by,
            description: self.description.clone(),
            tags: copy_names(&self.tags),
            kill_switch_active: self.kill_switch_active,
            rollout_strategy: self.rollout_strategy,
        }
    }
}

/// The segments and attributes of a user.
pub struct UserSegment {
    pub user: u64,
    pub segments: Vec<String>,
    pub attributes: Attributes,
    pub last_updated: u64,
    pub version: u32,
}

/// An arm of an A/B test.
pub struct TestVariant {
    pub id: String,
    pub name: String,
    pub weight: u32,
    pub config: Attributes,
}

/// An A/B test of a flag; the traffic allocation is a list of (variant, percent)
/// pairs in the order they are tried.
pub struct ABTest {
    pub id: String,
    pub name: String,
    pub feature_flag: String,
    pub variants: Vec<TestVariant>,
    pub traffic_allocation: Vec<(String, u32)>,
    pub start_time: u64,
    pub end_time: u64,
    pub status: ABTestStatus,
    pub sample_size: u32,
    pub confidence_threshold: u32,
}

/// The allocation of an A/B test as (variant, percent) pairs.
pub open spec fn alloc_view(a: Seq<(String, u32)>) -> Seq<(Seq<char>, u32)> {
    a.map_values(|p: (String, u32)| (p.0@, p.1))
}

/// A stage of a rollout plan.
pub struct RolloutStage {
    pub percentage: u32,
    pub duration: u64,
    pub criteria: Vec<Condition>,
    pub completed: bool,
}

/// The value of a rollout stage.
pub open spec fn stage_view(st: RolloutStage) -> (u32, u64, Seq<(Seq<char>, ComparisonOperator, soroban_sdk::Val, u32)>, bool) {
    (st.percentage, st.duration, conditions_view(st.criteria@), st.completed)
}

/// The values of a list of stages.
pub open spec fn stages_view(v: Seq<RolloutStage>) -> Seq<(u32, u64, Seq<(Seq<char>, ComparisonOperator, soroban_sdk::Val, u32)>, bool)> {
    v.map_values(|st: RolloutStage| stage_view(st))
}

/// The staged rollout of a flag.
pub struct RolloutPlan {
    pub feature_flag: String,
    pub stages: Vec<RolloutStage>,
    pub current_stage: u32,
    pub auto_advance: bool,
    pub created_at: u64,
}

/// An emergency stop of a flag.
pub struct KillSwitch {
    pub flag_key: String,
    pub active: bool,
    pub triggered_by: u64,
    pub triggered_at: u64,
    pub reason: String,
    pub auto_recovery: bool,
    pub recovery_time: Option<u64>,
}

/// The record of the last evaluation.
pub struct AnalyticsData {
    pub flag_key: String,
    pub user: u64,
    pub evaluation: bool,
    pub variant: Option<String>,
    pub timestamp: u64,
    pub context: Attributes,
    pub environment: Environment,
}

/// The flags of an environment.
pub struct EnvironmentConfig {
    pub environment: Environment,
    pub flags: Vec<String>,
}

/// The bytes hashed to place a user: the account's 8-byte encoding.
pub open spec fn user_bytes(user: u64) -> Seq<u8> {
    le_bytes(user as nat, 8)
}

/// The little-endian value of the first four bytes.
pub open spec fn le_u32(b: Seq<u8>) -> nat {
    b[0] as nat + 256 * b[1] as nat + 65536 * b[2] as nat + 16777216 * b[3] as nat
}

/// A user's position for rollouts: the first four bytes, little-endian, of the
/// digest of the user's bytes.
pub open spec fn user_hash(user: u64) -> nat {
    le_u32(sha256_digest(user_bytes(user)))
}

/// A user's position for rollouts (see `user_hash`).
pub fn user_hash_value(env: &soroban_sdk::Env, user: u64) -> (r: u32)
    ensures
        r == user_hash(user),
{
    let mut data: Vec<u8> = Vec::new();
    push_le(&mut data, user as u128, 8);
    assert(data@ =~= Seq::<u8>::empty() + user_bytes(user));
    let h = sha256(env, &data);
    h[0] as u32 + 256 * h[1] as u32 + 65536 * h[2] as u32 + 16777216 * h[3] as u32
}

/// Whether any name of `a` occurs in `b`.
pub open spec fn shares_name(a: Seq<Seq<char>>, b: Seq<Seq<char>>) -> bool {
    exists|i: int| 0 <= i < a.len() && b.contains(#[trigger] a[i])
}

/// Whether a list of names holds `n`.
fn holds_name(v: &Vec<String>, n: &String) -> (r: bool)
    ensures
        r == names(v@).contains(n@),
{
    let mut i: usize = 0;
    while i < v.len()
        invariant
            i <= v@.len(),
            forall|j: int| 0 <= j < i ==> #[trigger] v@[j]@ != n@,
        decreases v@.len() - i,
    {
        if str_eq(&v[i], n) {
            assert(names(v@)[i as int] == n@);
            return true;
        }
        i = i + 1;
    }
    assert forall|j: int| 0 <= j < v@.len() implies #[trigger] names(v@)[j] != n@ by {
        assert(names(v@)[j] == v@[j]@);
    }
    false
}

/// Whether an enabled flag reaches a user, by its strategy: always when immediate;
/// for a gradual or per-user rollout when the user's position modulo 100 is below the
/// percentage; for a segmented rollout when the user is in one of the flag's segments;
/// for a time-based rollout when the share of the day elapsed, in percent, is at most
/// the percentage.
pub open spec fn rollout_reaches(
    flag: FlagView,
    user_segments: Seq<Seq<char>>,
    hash_value: nat,
    now: u64,
) -> bool {
    match flag.rollout_strategy {
        RolloutStrategy::Immediate => flag.enabled,
        RolloutStrategy::Gradual => hash_value % 100 < flag.rollout_percentage,
        RolloutStrategy::Segmented => shares_name(flag.segments, user_segments),
        RolloutStrategy::TimeBased => (now % DAY_SECONDS) * 100 / (DAY_SECONDS as int) <= flag.rollout_percentage,
        RolloutStrategy::UserBased => hash_value % 100 < flag.rollout_percentage,
    }
}

/// Decides whether an enabled flag reaches a user whose position is `hash_value`
/// (see `rollout_reaches`).
pub fn rollout_decision(flag: &FeatureFlag, user_segments: &Vec<String>, hash_value: u32, now: u64)
    -> (r: bool)
    ensures
        r == rollout_reaches(flag@, names(user_segments@), hash_value as nat, now),
{
    match flag.rollout_strategy {
        RolloutStrategy::Immediate => flag.enabled,
        RolloutStrategy::Gradual => hash_value % 100 < flag.rollout_percentage,
        RolloutStrategy::UserBased => hash_value % 100 < flag.rollout_percentage,
        RolloutStrategy::TimeBased => {
            let time_factor = (now % DAY_SECONDS) * 100 / DAY_SECONDS;
            time_factor <= flag.rollout_percentage as u64
        },
        RolloutStrategy::Segmented => {
            let mut i: usize = 0;
            while i < flag.segments.len()
                invariant
                    i <= flag.segments@.len(),
                    flag.rollout_strategy == RolloutStrategy::Segmented,
                    forall|j: int|
                        0 <= j < i ==> !names(user_segments@).contains(#[trigger] names(flag.segments@)[j]),
                decreases flag.segments@.len() - i,
            {
                assert(names(flag.segments@)[i as int] == flag.segments@[i as int]@);
                if holds_name(user_segments, &flag.segments[i]) {
                    assert(names(user_segments@).contains(names(flag.segments@)[i as int]));
                    return true;
                }
                i = i + 1;
            }
            false
        },
    }
}

/// The variant a user's position selects: the first whose cumulative percentage, in
/// list order and starting from `cumulative`, exceeds the position modulo 100.
pub open spec fn pick_variant(allocs: Seq<(Seq<char>, u32)>, hash_value: nat, cumulative: int) -> Option<
    Seq<char>,
>
    decreases allocs.len(),
{
    if allocs.len() == 0 {
        None
    } else {
        let c = cumulative + allocs[0].1;
        if hash_value % 100 < c {
            Some(allocs[0].0)
        } else {
            pick_variant(allocs.drop_first(), hash_value, c)
        }
    }
}

/// The sum of the percentages.
pub open spec fn alloc_total(allocs: Seq<(Seq<char>, u32)>) -> int
    decreases allocs.len(),
{
    if allocs.len() == 0 {
        0
    } else {
        allocs[0].1 + alloc_total(allocs.drop_first())
    }
}

proof fn lemma_alloc_total_nonneg(allocs: Seq<(Seq<char>, u32)>)
    ensures
        alloc_total(allocs) >= 0,
    decreases allocs.len(),
{
    if allocs.len() > 0 {
        lemma_alloc_total_nonneg(allocs.drop_first());
    }
}

/// The variant that a user's position selects (see `pick_variant`).
pub fn variant_for_hash(allocation: &Vec<(String, u32)>, hash_value: u32) -> (r: Option<String>)
    requires
        alloc_total(alloc_view(allocation@)) <= u32::MAX,
    ensures
        match r {
            Some(v) => pick_variant(alloc_view(allocation@), hash_value as nat, 0) == Some(v@),
            None => pick_variant(alloc_view(allocation@), hash_value as nat, 0) is None,
        },
{
    let ghost a = alloc_view(allocation@);
    let mut cumulative: u32 = 0;
    let mut i: usize = 0;
    assert(a.skip(0) =~= a);
    while i < allocation.len()
        invariant
            i <= allocation@.len(),
            a == alloc_view(allocation@),
            alloc_total(a) <= u32::MAX,
            cumulative + alloc_total(a.skip(i as int)) == alloc_total(a),
            pick_variant(a, hash_value as nat, 0) == pick_variant(
                a.skip(i as int),
                hash_value as nat,
                cumulative as int,
            ),
        decreases allocation@.len() - i,
    {
        assert(a.skip(i as int)[0] == a[i as int]);
        assert(a.skip(i as int).drop_first() =~= a.skip(i + 1));
        proof {
            lemma_alloc_total_nonneg(a.skip(i + 1));
        }
        cumulative = cumulative + allocation[i].1;
        if hash_value % 100 < cumulative {
            return Some(allocation[i].0.clone());
        }
        i = i + 1;
    }
    None
}

/// A traffic allocation's percentages must total 100.
fn allocation_total_is_100(allocation: &Vec<(String, u32)>) -> (r: bool)
    ensures
        r == (alloc_total(alloc_view(allocation@)) == 100),
{
    let ghost a = alloc_view(allocation@);
    let mut total: u64 = 0;
    let mut i: usize = 0;
    assert(a.skip(0) =~= a);
    while i < allocation.len()
        invariant
            i <= allocation@.len(),
            a == alloc_view(allocation@),
            total + alloc_total(a.skip(i as int)) == alloc_total(a),
            total <= 100,
        decreases allocation@.len() - i,
    {
        assert(a.skip(i as int)[0] == a[i as int]);
        assert(a.skip(i as int).drop_first() =~= a.skip(i + 1));
        proof {
            lemma_alloc_total_nonneg(a.skip(i + 1));
        }
        total = total + allocation[i].1 as u64;
        if total > 100 {
            return false;
        }
        i = i + 1;
    }
    total == 100
}


/// The value of an A/B test arm: id, name, weight and its settings as (name, value)
/// pairs.
pub open spec fn variant_view(v: TestVariant) -> (Seq<char>, Seq<char>, u32, Seq<(Seq<char>, soroban_sdk::Val)>) {
    (v.id@, v.name@, v.weight, attr_pairs(v.config.entries@))
}

/// The values of a list of arms.
pub open spec fn variants_view(v: Seq<TestVariant>) -> Seq<(Seq<char>, Seq<char>, u32, Seq<(Seq<char>, soroban_sdk::Val)>)> {
    v.map_values(|x: TestVariant| variant_view(x))
}

/// The value of an A/B test.
pub open spec fn ab_view(t: ABTest) -> (
    (Seq<char>, Seq<char>, Seq<char>),
    Seq<(Seq<char>, Seq<char>, u32, Seq<(Seq<char>, soroban_sdk::Val)>)>,
    Seq<(Seq<char>, u32)>,
    (u64, u64, ABTestStatus, u32, u32),
) {
    (
        (t.id@, t.name@, t.feature_flag@),
        variants_view(t.variants@),
        alloc_view(t.traffic_allocation@),
        (t.start_time, t.end_time, t.status, t.sample_size, t.confidence_threshold),
    )
}

/// The value of a rollout plan.
pub open spec fn plan_view(p: RolloutPlan) -> (
    Seq<char>,
    Seq<(u32, u64, Seq<(Seq<char>, ComparisonOperator, soroban_sdk::Val, u32)>, bool)>,
    u32,
    bool,
    u64,
) {
    (p.feature_flag@, stages_view(p.stages@), p.current_stage, p.auto_advance, p.created_at)
}

/// The value of a kill switch.
pub open spec fn switch_view(k: KillSwitch) -> (Seq<char>, bool, u64, u64, Seq<char>, bool, Option<u64>) {
    (k.flag_key@, k.active, k.triggered_by, k.triggered_at, k.reason@, k.auto_recovery, k.recovery_time)
}

/// A copy of the arms of an A/B test.
fn copy_variants(v: &Vec<TestVariant>) -> (r: Vec<TestVariant>)
    ensures
        variants_view(r@) == variants_view(v@),
{
    let mut r: Vec<TestVariant> = Vec::new();
    let mut i: usize = 0;
    while i < v.len()
        invariant
            i <= v@.len(),
            r@.len() == i,
            forall|j: int| 0 <= j < i ==> variant_view(#[trigger] r@[j]) == variant_view(v@[j]),
        decreases v@.len() - i,
    {
        let x = &v[i];
        r.push(TestVariant { id: x.id.clone(), name: x.name.clone(), weight: x.weight, config: x.config.copy() });
        i = i + 1;
    }
    assert(variants_view(r@) =~= variants_view(v@));
    r
}

/// A copy of a traffic allocation.
fn copy_alloc(v: &Vec<(String, u32)>) -> (r: Vec<(String, u32)>)
    ensures
        alloc_view(r@) == alloc_view(v@),
{
    let mut r: Vec<(String, u32)> = Vec::new();
    let mut i: usize = 0;
    while i < v.len()
        invariant
            i <= v@.len(),
            r@.len() == i,
            forall|j: int| 0 <= j < i ==> (#[trigger] r@[j]).0@ == v@[j].0@ && r@[j].1 == v@[j].1,
        decreases v@.len() - i,
    {
        r.push((v[i].0.clone(), v[i].1));
        i = i + 1;
    }
    assert(alloc_view(r@) =~= alloc_view(v@));
    r
}

/// A copy of the stages of a plan.
fn copy_stages(v: &Vec<RolloutStage>) -> (r: Vec<RolloutStage>)
    ensures
        stages_view(r@) == stages_view(v@),
{
    let mut r: Vec<RolloutStage> = Vec::new();
    let mut i: usize = 0;
    while i < v.len()
        invariant
            i <= v@.len(),
            r@.len() == i,
            forall|j: int| 0 <= j < i ==> stage_view(#[trigger] r@[j]) == stage_view(v@[j]),
        decreases v@.len() - i,
    {
        let x = &v[i];
        r.push(
            RolloutStage {
                percentage: x.percentage,
                duration: x.duration,
                criteria: copy_conditions(&x.criteria),
                completed: x.completed,
            },
        );
        i = i + 1;
    }
    assert(stages_view(r@) =~= stages_view(v@));
    r
}


/// The state of the feature flag contract.
pub struct FeatureFlagContract {
    /// None until the contract is initialized.
    pub admin: Option<u64>,
    pub paused: bool,
    pub version: u32,
    pub environment_config: Option<EnvironmentConfig>,
    pub flags: StrTable<FeatureFlag>,
    pub user_segments: Table<UserSegment>,
    pub ab_tests: StrTable<ABTest>,
    pub rollout_plans: StrTable<RolloutPlan>,
    pub kill_switches: StrTable<KillSwitch>,
    pub analytics: Option<AnalyticsData>,
}

impl FeatureFlagContract {
    /// A percentage is valid when it is at most 100.
    pub fn validate_percentage(percentage: u32) -> (r: Result<(), FeatureFlagError>)
        ensures
            r is Ok <==> percentage <= 100,
            r is Err ==> r == Err::<(), FeatureFlagError>(FeatureFlagError::InvalidPercentage),
    {
        if percentage > 100 {
            return Err(FeatureFlagError::InvalidPercentage);
        }
        Ok(())
    }

    /// The flags, by key.
    pub open spec fn flag_map(self) -> Map<Seq<char>, FlagView> {
        self.flags.map().map_values(|f: FeatureFlag| f@)
    }

    /// The segments of a user: those recorded, or none.
    pub open spec fn segments_of(self, user: u64) -> Seq<Seq<char>> {
        if self.user_segments.map().dom().contains(user) {
            names(self.user_segments.map()[user].segments@)
        } else {
            Seq::empty()
        }
    }

    /// The invariant: the tables are well formed, and every stored A/B test's
    /// allocation totals 100.
    pub open spec fn wf(self) -> bool {
        &&& self.flags.wf()
        &&& self.user_segments.wf()
        &&& self.ab_tests.wf()
        &&& self.rollout_plans.wf()
        &&& self.kill_switches.wf()
        &&& forall|k: Seq<char>| #[trigger]
            self.ab_tests.map().dom().contains(k) ==> alloc_total(
                alloc_view(self.ab_tests.map()[k].traffic_allocation@),
            ) == 100
    }

    /// A contract that has not been initialized.
    pub fn new() -> (r: Self)
        ensures
            r.wf(),
            r.admin is None,
            !r.paused,
            r.version == 1,
            r.environment_config is None,
            r.flag_map() == Map::<Seq<char>, FlagView>::empty(),
            r.user_segments.map() == Map::<u64, UserSegment>::empty(),
            r.ab_tests.map() == Map::<Seq<char>, ABTest>::empty(),
            r.rollout_plans.map() == Map::<Seq<char>, RolloutPlan>::empty(),
            r.kill_switches.map() == Map::<Seq<char>, KillSwitch>::empty(),
            r.analytics is None,
    {
        let r = FeatureFlagContract {
            admin: None,
            paused: false,
            version: 1,
            environment_config: None,
            flags: StrTable::new(),
            user_segments: Table::new(),
            ab_tests: StrTable::new(),
            rollout_plans: StrTable::new(),
            kill_switches: StrTable::new(),
            analytics: None,
        };
        assert(r.flag_map() =~= Map::<Seq<char>, FlagView>::empty());
        r
    }

    /// Initializes the contract: administrator, unpaused, version 1; the environment
    /// configuration written last, that of the testing environment, holds no flags.
    /// Errors: a contract already initialized.
    pub fn initialize(&mut self, admin: u64) -> (r: Result<(), FeatureFlagError>)
        requires
            old(self).wf(),
        ensures
            final(self).wf(),
            old(self).admin is Some <==> r is Err,
            r is Err ==> r == Err::<(), FeatureFlagError>(FeatureFlagError::AlreadyInitialized),
            r is Err ==> *final(self) == *old(self),
            r is Ok ==> {
                &&& final(self).admin == Some(admin)
                &&& !final(self).paused
                &&& final(self).version == 1
                &&& (final(self).environment_config matches Some(c) && c.environment
                    == Environment::Testing && c.flags@.len() == 0)
                &&& final(self).flags == old(self).flags
            },
    {
        if self.admin.is_some() {
            return Err(FeatureFlagError::AlreadyInitialized);
        }
        self.admin = Some(admin);
        self.paused = false;
        self.version = 1;
        self.environment_config = Some(
            EnvironmentConfig { environment: Environment::Testing, flags: Vec::new() },
        );
        Ok(())
    }

    /// What creating a flag fails with, if anything, in this order: a contract not
    /// initialized, paused; a percentage above 100; a key in use.
    pub open spec fn create_flag_error(self, key: Seq<char>, rollout_percentage: u32) -> Option<
        FeatureFlagError,
    > {
        if self.admin is None {
            Some(FeatureFlagError::NotInitialized)
        } else if self.paused {
            Some(FeatureFlagError::ContractPaused)
        } else if rollout_percentage > 100 {
            Some(FeatureFlagError::InvalidPercentage)
        } else if self.flag_map().dom().contains(key) {
            Some(FeatureFlagError::DuplicateFlag)
        } else {
            None
        }
    }

    /// Creates a flag with no segments and the kill switch off. Errors: see
    /// `create_flag_error`.
    pub fn create_feature_flag(
        &mut self,
        key: String,
        enabled: bool,
        rollout_percentage: u32,
        environment: Environment,
        description: String,
        created_by: u64,
        tags: Vec<String>,
        rollout_strategy: RolloutStrategy,
        now: u64,
    ) -> (r: Result<(), FeatureFlagError>)
        requires
            old(self).wf(),
        ensures
            final(self).wf(),
            r is Err <==> old(self).create_flag_error(key@, rollout_percentage) is Some,
            r matches Err(e) ==> old(self).create_flag_error(key@, rollout_percentage) == Some(e),
            r is Err ==> *final(self) == *old(self),
            r is Ok ==> {
                &&& final(self).flag_map() == old(self).flag_map().insert(
                    key@,
                    FlagView {
                        key: key@,
                        enabled,
                        rollout_percentage,
                        environment,
                        segments: Seq::empty(),
                        rules: Seq::empty(),
                        created_at: now,
                        updated_at: now,
                        created_by,
                        description: description@,
                        tags: names(tags@),
                        kill_switch_active: false,
                        rollout_strategy,
                    },
                )
                &&& *final(self) == (FeatureFlagContract { flags: final(self).flags, ..*old(self) })
            },
    {
        if self.admin.is_none() {
            return Err(FeatureFlagError::NotInitialized);
        }
        if self.paused {
            return Err(FeatureFlagError::ContractPaused);
        }
        match FeatureFlagContract::validate_percentage(rollout_percentage) {
            Err(e) => {
                return Err(e);
            },
            Ok(()) => {},
        }
        if self.flags.contains_key(&key) {
            return Err(FeatureFlagError::DuplicateFlag);
        }
        let segments: Vec<String> = Vec::new();
        let flag = FeatureFlag {
            key: key.clone(),
            enabled,
            rollout_percentage,
            environment,
            segments,
            rules: Vec::new(),
            created_at: now,
            updated_at: now,
            created_by,
            description,
            tags,
            kill_switch_active: false,
            rollout_strategy,
        };
        assert(names(flag.segments@) =~= Seq::<Seq<char>>::empty());
        assert(rules_view(flag.rules@) =~= Seq::empty());
        let ghost fv = flag@;
        let ghost m0 = self.flag_map();
        self.flags.push_new(key, flag);
        assert(self.flag_map() =~= m0.insert(fv.key, fv));
        Ok(())
    }

    /// The result of evaluating a flag for a user whose position is `hash_value`: off
    /// under a kill switch or when disabled, else by the rollout (see
    /// `rollout_reaches`).
    pub open spec fn evaluation(self, key: Seq<char>, user: u64, hash_value: nat, now: u64) -> bool {
        let f = self.flag_map()[key];
        if f.kill_switch_active || !f.enabled {
            false
        } else {
            rollout_reaches(f, self.segments_of(user), hash_value, now)
        }
    }

    /// Evaluates a flag for a user, given the user's position (see `evaluation`); an
    /// evaluation that reaches the rollout is recorded. Errors: an unknown flag.
    pub fn evaluate_with_hash(
        &mut self,
        key: &String,
        user: u64,
        context: Attributes,
        hash_value: u32,
        now: u64,
    ) -> (r: Result<bool, FeatureFlagError>)
        requires
            old(self).wf(),
        ensures
            final(self).wf(),
            !old(self).flag_map().dom().contains(key@) <==> r is Err,
            r is Err ==> r == Err::<bool, FeatureFlagError>(FeatureFlagError::FlagNotFound),
            r is Err ==> *final(self) == *old(self),
            r matches Ok(b) ==> {
                let f = old(self).flag_map()[key@];
                &&& b == old(self).evaluation(key@, user, hash_value as nat, now)
                &&& !f.kill_switch_active && f.enabled ==> (final(self).analytics matches Some(a)
                    && a.flag_key@ == key@ && a.user == user && a.evaluation == b && a.variant is None
                    && a.timestamp == now && a.environment == f.environment
                    && a.context.entries@ == context.entries@)
                &&& *final(self) == (FeatureFlagContract {
                    analytics: final(self).analytics,
                    ..*old(self)
                })
            },
    {
        let i = match self.flags.find(key) {
            Some(i) => i,
            None => {
                return Err(FeatureFlagError::FlagNotFound);
            },
        };
        let flag = &self.flags.entries[i].1;
        if flag.kill_switch_active {
            return Ok(false);
        }
        if !flag.enabled {
            return Ok(false);
        }
        let result = match self.user_segments.find(user) {
            Some(u) => rollout_decision(flag, &self.user_segments.entries[u].1.segments, hash_value, now),
            None => {
                let none: Vec<String> = Vec::new();
                assert(names(none@) =~= Seq::<Seq<char>>::empty());
                rollout_decision(flag, &none, hash_value, now)
            },
        };
        let environment = flag.environment;
        self.analytics = Some(
            AnalyticsData {
                flag_key: key.clone(),
                user,
                evaluation: result,
                variant: None,
                timestamp: now,
                context,
                environment,
            },
        );
        Ok(result)
    }

    /// Evaluates a flag for a user at the position the user's digest gives (see
    /// `user_hash` and `evaluate_with_hash`). Errors: an unknown flag.
    pub fn evaluate_flag(
        &mut self,
        env: &soroban_sdk::Env,
        key: &String,
        user: u64,
        context: Attributes,
        now: u64,
    ) -> (r: Result<bool, FeatureFlagError>)
        requires
            old(self).wf(),
        ensures
            final(self).wf(),
            !old(self).flag_map().dom().contains(key@) <==> r is Err,
            r is Err ==> r == Err::<bool, FeatureFlagError>(FeatureFlagError::FlagNotFound),
            r is Err ==> *final(self) == *old(self),
            r matches Ok(b) ==> {
                let f = old(self).flag_map()[key@];
                &&& b == old(self).evaluation(key@, user, user_hash(user), now)
                &&& !f.kill_switch_active && f.enabled ==> (final(self).analytics matches Some(a)
                    && a.flag_key@ == key@ && a.user == user && a.evaluation == b && a.variant is None
                    && a.timestamp == now && a.environment == f.environment
                    && a.context.entries@ == context.entries@)
                &&& *final(self) == (FeatureFlagContract {
                    analytics: final(self).analytics,
                    ..*old(self)
                })
            },
    {
        let h = user_hash_value(env, user);
        self.evaluate_with_hash(key, user, context, h, now)
    }

    /// What creating an A/B test fails with, if anything, in this order: a contract not
    /// initialized; no variants; a start not before the end; an allocation not
    /// totalling 100.
    pub open spec fn ab_test_error(
        self,
        variants: nat,
        allocation: Seq<(Seq<char>, u32)>,
        start_time: u64,
        end_time: u64,
    ) -> Option<FeatureFlagError> {
        if self.admin is None {
            Some(FeatureFlagError::NotInitialized)
        } else if variants == 0 {
            Some(FeatureFlagError::InvalidVariant)
        } else if start_time >= end_time {
            Some(FeatureFlagError::InvalidTimeRange)
        } else if alloc_total(allocation) != 100 {
            Some(FeatureFlagError::InvalidTrafficAllocation)
        } else {
            None
        }
    }

    /// Creates (or replaces) an A/B test of a flag, as a draft. Errors: see
    /// `ab_test_error`.
    pub fn create_ab_test(
        &mut self,
        id: String,
        name: String,
        feature_flag: String,
        variants: Vec<TestVariant>,
        traffic_allocation: Vec<(String, u32)>,
        start_time: u64,
        end_time: u64,
        sample_size: u32,
        confidence_threshold: u32,
    ) -> (r: Result<(), FeatureFlagError>)
        requires
            old(self).wf(),
        ensures
            final(self).wf(),
            r is Err <==> old(self).ab_test_error(
                variants@.len(),
                alloc_view(traffic_allocation@),
                start_time,
                end_time,
            ) is Some,
            r matches Err(e) ==> old(self).ab_test_error(
                variants@.len(),
                alloc_view(traffic_allocation@),
                start_time,
                end_time,
            ) == Some(e),
            r is Err ==> *final(self) == *old(self),
            r is Ok ==> {
                let t = final(self).ab_tests.map()[id@];
                &&& final(self).ab_tests.map().dom() == old(self).ab_tests.map().dom().insert(id@)
                &&& forall|k: Seq<char>| k != id@ && #[trigger] old(self).ab_tests.map().dom().contains(k)
                    ==> final(self).ab_tests.map()[k] == old(self).ab_tests.map()[k]
                &&& t.id@ == id@ && t.name@ == name@ && t.feature_flag@ == feature_flag@
                &&& t.variants@.len() == variants@.len()
                &&& alloc_view(t.traffic_allocation@) == alloc_view(traffic_allocation@)
                &&& t.start_time == start_time && t.end_time == end_time
                &&& t.status == ABTestStatus::Draft
                &&& t.sample_size == sample_size && t.confidence_threshold == confidence_threshold
                &&& *final(self) == (FeatureFlagContract { ab_tests: final(self).ab_tests, ..*old(self) })
            },
    {
        if self.admin.is_none() {
            return Err(FeatureFlagError::NotInitialized);
        }
        if variants.len() == 0 {
            return Err(FeatureFlagError::InvalidVariant);
        }
        if start_time >= end_time {
            return Err(FeatureFlagError::InvalidTimeRange);
        }
        if !allocation_total_is_100(&traffic_allocation) {
            return Err(FeatureFlagError::InvalidTrafficAllocation);
        }
        let test = ABTest {
            id: id.clone(),
            name,
            feature_flag,
            variants,
            traffic_allocation,
            start_time,
            end_time,
            status: ABTestStatus::Draft,
            sample_size,
            confidence_threshold,
        };
        let ghost old_t = self.ab_tests.map();
        self.ab_tests.insert(id, test);
        assert(self.ab_tests.map().dom() =~= old_t.dom().insert(test.id@));
        Ok(())
    }

    /// The variant of a running A/B test that a user at position `hash_value` is in
    /// (see `pick_variant`); none for a test that is not running or outside its time
    /// window. Errors: an unknown test.
    pub fn ab_variant_with_hash(&self, test_id: &String, hash_value: u32, now: u64) -> (r: Result<
        Option<String>,
        FeatureFlagError,
    >)
        requires
            self.wf(),
        ensures
            !self.ab_tests.map().dom().contains(test_id@) <==> r is Err,
            r is Err ==> r == Err::<Option<String>, FeatureFlagError>(FeatureFlagError::ABTestNotFound),
            r matches Ok(v) ==> {
                let t = self.ab_tests.map()[test_id@];
                if t.status != ABTestStatus::Running || now < t.start_time || now > t.end_time {
                    v is None
                } else {
                    match v {
                        Some(s) => pick_variant(alloc_view(t.traffic_allocation@), hash_value as nat, 0)
                            == Some(s@),
                        None => pick_variant(alloc_view(t.traffic_allocation@), hash_value as nat, 0) is None,
                    }
                }
            },
    {
        let i = match self.ab_tests.find(test_id) {
            Some(i) => i,
            None => {
                return Err(FeatureFlagError::ABTestNotFound);
            },
        };
        let t = &self.ab_tests.entries[i].1;
        assert(self.ab_tests.map()[test_id@] == *t);
        if t.status != ABTestStatus::Running {
            return Ok(None);
        }
        if now < t.start_time || now > t.end_time {
            return Ok(None);
        }
        Ok(variant_for_hash(&t.traffic_allocation, hash_value))
    }

    /// The variant of a running A/B test for a user at the position the user's digest
    /// gives (see `user_hash` and `ab_variant_with_hash`). Errors: an unknown test.
    pub fn get_ab_test_variant(&self, env: &soroban_sdk::Env, test_id: &String, user: u64, now: u64)
        -> (r: Result<Option<String>, FeatureFlagError>)
        requires
            self.wf(),
        ensures
            !self.ab_tests.map().dom().contains(test_id@) <==> r is Err,
            r matches Ok(v) ==> {
                let t = self.ab_tests.map()[test_id@];
                if t.status != ABTestStatus::Running || now < t.start_time || now > t.end_time {
                    v is None
                } else {
                    match v {
                        Some(s) => pick_variant(alloc_view(t.traffic_allocation@), user_hash(user), 0)
                            == Some(s@),
                        None => pick_variant(alloc_view(t.traffic_allocation@), user_hash(user), 0) is None,
                    }
                }
            },
    {
        let i = match self.ab_tests.find(test_id) {
            Some(i) => i,
            None => {
                return Err(FeatureFlagError::ABTestNotFound);
            },
        };
        let t = &self.ab_tests.entries[i].1;
        if t.status != ABTestStatus::Running {
            return Ok(None);
        }
        if now < t.start_time || now > t.end_time {
            return Ok(None);
        }
        let h = user_hash_value(env, user);
        self.ab_variant_with_hash(test_id, h, now)
    }

    /// Creates (or replaces) the rollout plan of a flag, at its first stage. Errors: a
    /// contract not initialized.
    pub fn create_rollout_plan(
        &mut self,
        feature_flag: String,
        stages: Vec<RolloutStage>,
        auto_advance: bool,
        now: u64,
    ) -> (r: Result<(), FeatureFlagError>)
        requires
            old(self).wf(),
        ensures
            final(self).wf(),
            old(self).admin is None <==> r is Err,
            r is Err ==> r == Err::<(), FeatureFlagError>(FeatureFlagError::NotInitialized),
            r is Err ==> *final(self) == *old(self),
            r is Ok ==> {
                let p = final(self).rollout_plans.map()[feature_flag@];
                &&& final(self).rollout_plans.map().dom() == old(self).rollout_plans.map().dom().insert(
                    feature_flag@,
                )
                &&& p.feature_flag@ == feature_flag@ && stages_view(p.stages@) == stages_view(stages@)
                &&& p.current_stage == 0 && p.auto_advance == auto_advance && p.created_at == now
                &&& *final(self) == (FeatureFlagContract {
                    rollout_plans: final(self).rollout_plans,
                    ..*old(self)
                })
            },
    {
        if self.admin.is_none() {
            return Err(FeatureFlagError::NotInitialized);
        }
        let plan = RolloutPlan {
            feature_flag: feature_flag.clone(),
            stages,
            current_stage: 0,
            auto_advance,
            created_at: now,
        };
        let ghost old_p = self.rollout_plans.map();
        self.rollout_plans.insert(feature_flag, plan);
        assert(self.rollout_plans.map().dom() =~= old_p.dom().insert(plan.feature_flag@));
        Ok(())
    }

    /// Records (or replaces) a user's segments and attributes, at version 1. Errors: a
    /// contract not initialized.
    pub fn add_user_segment(
        &mut self,
        user: u64,
        segments: Vec<String>,
        attributes: Attributes,
        now: u64,
    ) -> (r: Result<(), FeatureFlagError>)
        requires
            old(self).wf(),
        ensures
            final(self).wf(),
            old(self).admin is None <==> r is Err,
            r is Err ==> r == Err::<(), FeatureFlagError>(FeatureFlagError::NotInitialized),
            r is Err ==> *final(self) == *old(self),
            r is Ok ==> {
                let s = final(self).user_segments.map()[user];
                &&& final(self).user_segments.map().dom() == old(self).user_segments.map().dom().insert(user)
                &&& final(self).segments_of(user) == names(segments@)
                &&& s.user == user && s.last_updated == now && s.version == 1
                &&& *final(self) == (FeatureFlagContract {
                    user_segments: final(self).user_segments,
                    ..*old(self)
                })
            },
    {
        if self.admin.is_none() {
            return Err(FeatureFlagError::NotInitialized);
        }
        let seg = UserSegment { user, segments, attributes, last_updated: now, version: 1 };
        let ghost old_u = self.user_segments.map();
        self.user_segments.insert(user, seg);
        assert(self.user_segments.map().dom() =~= old_u.dom().insert(user));
        Ok(())
    }

    /// What switching a flag's kill switch fails with, if anything: a contract not
    /// initialized, then an unknown flag.
    pub open spec fn switch_error(self, key: Seq<char>) -> Option<FeatureFlagError> {
        if self.admin is None {
            Some(FeatureFlagError::NotInitialized)
        } else if !self.flag_map().dom().contains(key) {
            Some(FeatureFlagError::FlagNotFound)
        } else {
            None
        }
    }

    /// Sets a flag's kill switch on or off, keeping everything else of the flag.
    fn set_kill(&mut self, i: usize, on: bool)
        requires
            old(self).wf(),
            i < old(self).flags.entries@.len(),
        ensures
            final(self).wf(),
            final(self).flag_map() == old(self).flag_map().insert(
                old(self).flags.entries@[i as int].0@,
                FlagView {
                    kill_switch_active: on,
                    ..old(self).flag_map()[old(self).flags.entries@[i as int].0@]
                },
            ),
            *final(self) == (FeatureFlagContract { flags: final(self).flags, ..*old(self) }),
    {
        let ghost k = self.flags.entries@[i as int].0@;
        proof {
            self.flags.lemma_pos(i as int);
        }
        let mut f = self.flags.entries[i].1.copy();
        f.kill_switch_active = on;
        let ghost fv = f@;
        let ghost m0 = self.flag_map();
        self.flags.set_at(i, f);
        assert(self.flag_map() =~= m0.insert(k, fv));
    }

    /// Turns on a flag's kill switch, recording who, when, why and the recovery
    /// terms. Errors: see `switch_error`.
    pub fn activate_kill_switch(
        &mut self,
        flag_key: &String,
        reason: String,
        auto_recovery: bool,
        recovery_time: Option<u64>,
        now: u64,
    ) -> (r: Result<(), FeatureFlagError>)
        requires
            old(self).wf(),
        ensures
            final(self).wf(),
            r is Err <==> old(self).switch_error(flag_key@) is Some,
            r matches Err(e) ==> old(self).switch_error(flag_key@) == Some(e),
            r is Err ==> *final(self) == *old(self),
            r is Ok ==> {
                let ks = final(self).kill_switches.map()[flag_key@];
                &&& final(self).flag_map() == old(self).flag_map().insert(
                    flag_key@,
                    FlagView { kill_switch_active: true, ..old(self).flag_map()[flag_key@] },
                )
                &&& final(self).kill_switches.map().dom().contains(flag_key@)
                &&& ks.active && ks.triggered_by == old(self).admin.unwrap()
                &&& ks.triggered_at == now && ks.reason@ == reason@
                &&& ks.auto_recovery == auto_recovery && ks.recovery_time == recovery_time
                &&& final(self).user_segments == old(self).user_segments
                &&& final(self).ab_tests == old(self).ab_tests
                &&& final(self).admin == old(self).admin
            },
    {
        let admin = match self.admin {
            Some(a) => a,
            None => {
                return Err(FeatureFlagError::NotInitialized);
            },
        };
        let i = match self.flags.find(flag_key) {
            Some(i) => i,
            None => {
                return Err(FeatureFlagError::FlagNotFound);
            },
        };
        self.set_kill(i, true);
        let ks = KillSwitch {
            flag_key: flag_key.clone(),
            active: true,
            triggered_by: admin,
            triggered_at: now,
            reason,
            auto_recovery,
            recovery_time,
        };
        self.kill_switches.insert(flag_key.clone(), ks);
        Ok(())
    }

    /// Turns off a flag's kill switch and marks its record inactive. Errors: see
    /// `switch_error`, then a flag whose kill switch was never turned on.
    pub fn deactivate_kill_switch(&mut self, flag_key: &String) -> (r: Result<(), FeatureFlagError>)
        requires
            old(self).wf(),
        ensures
            final(self).wf(),
            old(self).switch_error(flag_key@) matches Some(e) ==> r == Err::<(), FeatureFlagError>(e),
            old(self).switch_error(flag_key@) is None && !old(self).kill_switches.map().dom().contains(
                flag_key@,
            ) ==> r == Err::<(), FeatureFlagError>(FeatureFlagError::StorageError),
            old(self).switch_error(flag_key@) is None && old(self).kill_switches.map().dom().contains(
                flag_key@,
            ) ==> r is Ok,
            r is Err ==> *final(self) == *old(self),
            r is Ok ==> {
                &&& old(self).switch_error(flag_key@) is None
                &&& final(self).flag_map() == old(self).flag_map().insert(
                    flag_key@,
                    FlagView { kill_switch_active: false, ..old(self).flag_map()[flag_key@] },
                )
                &&& final(self).kill_switches.map().dom() == old(self).kill_switches.map().dom()
                &&& !final(self).kill_switches.map()[flag_key@].active
                &&& final(self).user_segments == old(self).user_segments
                &&& final(self).admin == old(self).admin
            },
    {
        if self.admin.is_none() {
            return Err(FeatureFlagError::NotInitialized);
        }
        let i = match self.flags.find(flag_key) {
            Some(i) => i,
            None => {
                return Err(FeatureFlagError::FlagNotFound);
            },
        };
        let k = match self.kill_switches.find(flag_key) {
            Some(k) => k,
            None => {
                return Err(FeatureFlagError::StorageError);
            },
        };
        self.set_kill(i, false);
        let ghost d0 = self.kill_switches.map().dom();
        let mut ks = self.kill_switches.replace_at(
            k,
            KillSwitch {
                flag_key: String::new(),
                active: false,
                triggered_by: 0,
                triggered_at: 0,
                reason: String::new(),
                auto_recovery: false,
                recovery_time: None,
            },
        );
        ks.active = false;
        self.kill_switches.set_at(k, ks);
        assert(self.kill_switches.map().dom() =~= d0);
        Ok(())
    }

    /// What updating a flag fails with, if anything: a contract not initialized, an
    /// unknown flag, a new percentage above 100.
    pub open spec fn update_error(self, key: Seq<char>, rollout_percentage: Option<u32>) -> Option<
        FeatureFlagError,
    > {
        if self.admin is None {
            Some(FeatureFlagError::NotInitialized)
        } else if !self.flag_map().dom().contains(key) {
            Some(FeatureFlagError::FlagNotFound)
        } else if rollout_percentage matches Some(p) && p > 100 {
            Some(FeatureFlagError::InvalidPercentage)
        } else {
            None
        }
    }

    /// Updates the given fields of a flag and its update time. Errors: see
    /// `update_error`.
    pub fn update_feature_flag(
        &mut self,
        key: &String,
        enabled: Option<bool>,
        rollout_percentage: Option<u32>,
        description: Option<String>,
        tags: Option<Vec<String>>,
        now: u64,
    ) -> (r: Result<(), FeatureFlagError>)
        requires
            old(self).wf(),
        ensures
            final(self).wf(),
            r is Err <==> old(self).update_error(key@, rollout_percentage) is Some,
            r matches Err(e) ==> old(self).update_error(key@, rollout_percentage) == Some(e),
            r is Err ==> *final(self) == *old(self),
            r is Ok ==> {
                let f = old(self).flag_map()[key@];
                &&& final(self).flag_map() == old(self).flag_map().insert(
                    key@,
                    FlagView {
                        enabled: match enabled {
                            Some(b) => b,
                            None => f.enabled,
                        },
                        rollout_percentage: match rollout_percentage {
                            Some(p) => p,
                            None => f.rollout_percentage,
                        },
                        description: match description {
                            Some(d) => d@,
                            None => f.description,
                        },
                        tags: match tags {
                            Some(t) => names(t@),
                            None => f.tags,
                        },
                        updated_at: now,
                        ..f
                    },
                )
                &&& *final(self) == (FeatureFlagContract { flags: final(self).flags, ..*old(self) })
            },
    {
        if self.admin.is_none() {
            return Err(FeatureFlagError::NotInitialized);
        }
        let i = match self.flags.find(key) {
            Some(i) => i,
            None => {
                return Err(FeatureFlagError::FlagNotFound);
            },
        };
        let mut f = self.flags.entries[i].1.copy();
        if let Some(b) = enabled {
            f.enabled = b;
        }
        if let Some(p) = rollout_percentage {
            match FeatureFlagContract::validate_percentage(p) {
                Err(e) => {
                    return Err(e);
                },
                Ok(()) => {},
            }
            f.rollout_percentage = p;
        }
        if let Some(d) = description {
            f.description = d;
        }
        if let Some(t) = tags {
            f.tags = t;
        }
        f.updated_at = now;
        let ghost fv = f@;
        let ghost m0 = self.flag_map();
        self.flags.set_at(i, f);
        assert(self.flag_map() =~= m0.insert(key@, fv));
        Ok(())
    }

    /// Sets the pause flag. Errors: a contract not initialized.
    pub fn set_paused(&mut self, paused: bool) -> (r: Result<(), FeatureFlagError>)
        requires
            old(self).wf(),
        ensures
            final(self).wf(),
            old(self).admin is None <==> r is Err,
            r is Err ==> r == Err::<(), FeatureFlagError>(FeatureFlagError::NotInitialized),
            r is Err ==> *final(self) == *old(self),
            r is Ok ==> *final(self) == (FeatureFlagContract { paused, ..*old(self) }),
    {
        if self.admin.is_none() {
            return Err(FeatureFlagError::NotInitialized);
        }
        self.paused = paused;
        Ok(())
    }

    /// Stops evaluation-changing operations. Errors: a contract not initialized.
    pub fn pause(&mut self) -> (r: Result<(), FeatureFlagError>)
        requires
            old(self).wf(),
        ensures
            final(self).wf(),
            old(self).admin is None <==> r is Err,
            r is Err ==> *final(self) == *old(self),
            r is Ok ==> *final(self) == (FeatureFlagContract { paused: true, ..*old(self) }),
    {
        self.set_paused(true)
    }

    /// Resumes operations. Errors: a contract not initialized.
    pub fn unpause(&mut self) -> (r: Result<(), FeatureFlagError>)
        requires
            old(self).wf(),
        ensures
            final(self).wf(),
            old(self).admin is None <==> r is Err,
            r is Err ==> *final(self) == *old(self),
            r is Ok ==> *final(self) == (FeatureFlagContract { paused: false, ..*old(self) }),
    {
        self.set_paused(false)
    }

    /// An A/B test. Errors: an unknown test.
    pub fn get_ab_test(&self, test_id: &String) -> (r: Result<ABTest, FeatureFlagError>)
        requires
            self.wf(),
        ensures
            !self.ab_tests.map().dom().contains(test_id@) <==> r is Err,
            r is Err ==> r == Err::<ABTest, FeatureFlagError>(FeatureFlagError::ABTestNotFound),
            r matches Ok(t) ==> ab_view(t) == ab_view(self.ab_tests.map()[test_id@]),
    {
        match self.ab_tests.find(test_id) {
            Some(i) => {
                let t = &self.ab_tests.entries[i].1;
                Ok(
                    ABTest {
                        id: t.id.clone(),
                        name: t.name.clone(),
                        feature_flag: t.feature_flag.clone(),
                        variants: copy_variants(&t.variants),
                        traffic_allocation: copy_alloc(&t.traffic_allocation),
                        start_time: t.start_time,
                        end_time: t.end_time,
                        status: t.status,
                        sample_size: t.sample_size,
                        confidence_threshold: t.confidence_threshold,
                    },
                )
            },
            None => Err(FeatureFlagError::ABTestNotFound),
        }
    }

    /// The rollout plan of a flag. Errors: a flag without one.
    pub fn get_rollout_plan(&self, feature_flag: &String) -> (r: Result<RolloutPlan, FeatureFlagError>)
        requires
            self.wf(),
        ensures
            !self.rollout_plans.map().dom().contains(feature_flag@) <==> r is Err,
            r is Err ==> r == Err::<RolloutPlan, FeatureFlagError>(FeatureFlagError::RolloutPlanNotFound),
            r matches Ok(p) ==> plan_view(p) == plan_view(self.rollout_plans.map()[feature_flag@]),
    {
        match self.rollout_plans.find(feature_flag) {
            Some(i) => {
                let p = &self.rollout_plans.entries[i].1;
                Ok(
                    RolloutPlan {
                        feature_flag: p.feature_flag.clone(),
                        stages: copy_stages(&p.stages),
                        current_stage: p.current_stage,
                        auto_advance: p.auto_advance,
                        created_at: p.created_at,
                    },
                )
            },
            None => Err(FeatureFlagError::RolloutPlanNotFound),
        }
    }

    /// The kill switch record of a flag. Errors: a flag whose switch was never used.
    pub fn get_kill_switch(&self, flag_key: &String) -> (r: Result<KillSwitch, FeatureFlagError>)
        requires
            self.wf(),
        ensures
            !self.kill_switches.map().dom().contains(flag_key@) <==> r is Err,
            r is Err ==> r == Err::<KillSwitch, FeatureFlagError>(FeatureFlagError::FlagNotFound),
            r matches Ok(k) ==> switch_view(k) == switch_view(self.kill_switches.map()[flag_key@]),
    {
        match self.kill_switches.find(flag_key) {
            Some(i) => {
                let k = &self.kill_switches.entries[i].1;
                Ok(
                    KillSwitch {
                        flag_key: k.flag_key.clone(),
                        active: k.active,
                        triggered_by: k.triggered_by,
                        triggered_at: k.triggered_at,
                        reason: k.reason.clone(),
                        auto_recovery: k.auto_recovery,
                        recovery_time: k.recovery_time,
                    },
                )
            },
            None => Err(FeatureFlagError::FlagNotFound),
        }
    }

    /// A flag. Errors: an unknown flag.
    pub fn get_feature_flag(&self, key: &String) -> (r: Result<FeatureFlag, FeatureFlagError>)
        requires
            self.wf(),
        ensures
            !self.flag_map().dom().contains(key@) <==> r is Err,
            r is Err ==> r == Err::<FeatureFlag, FeatureFlagError>(FeatureFlagError::FlagNotFound),
            r matches Ok(f) ==> f@ == self.flag_map()[key@],
    {
        match self.flags.find(key) {
            Some(i) => Ok(self.flags.entries[i].1.copy()),
            None => Err(FeatureFlagError::FlagNotFound),
        }
    }

    /// A user's recorded segments, or none with version 0.
    pub fn get_user_segment(&self, user: u64) -> (r: UserSegment)
        requires
            self.wf(),
        ensures
            r.user == user,
            names(r.segments@) == self.segments_of(user),
            !self.user_segments.map().dom().contains(user) ==> r.version == 0 && r.last_updated == 0
                && r.attributes.entries@.len() == 0,
            self.user_segments.map().dom().contains(user) ==> r.version == self.user_segments.map()[user].version
                && r.last_updated == self.user_segments.map()[user].last_updated,
    {
        match self.user_segments.find(user) {
            Some(i) => {
                let s = &self.user_segments.entries[i].1;
                UserSegment {
                    user,
                    segments: copy_names(&s.segments),
                    attributes: s.attributes.copy(),
                    last_updated: s.last_updated,
                    version: s.version,
                }
            },
            None => {
                let segments: Vec<String> = Vec::new();
                assert(names(segments@) =~= Seq::<Seq<char>>::empty());
                UserSegment {
                    user,
                    segments,
                    attributes: Attributes { entries: Vec::new() },
                    last_updated: 0,
                    version: 0,
                }
            },
        }
    }

    /// The contract version.
    pub fn version(&self) -> (r: u32)
        ensures
            r == self.version,
    {
        self.version
    }
}

/// A flag under its kill switch, or disabled, reaches nobody.
pub proof fn law_kill_switch_disables(
    c: FeatureFlagContract,
    key: Seq<char>,
    user: u64,
    hash_value: nat,
    now: u64,
)
    requires
        c.flag_map().dom().contains(key),
        c.flag_map()[key].kill_switch_active || !c.flag_map()[key].enabled,
    ensures
        !c.evaluation(key, user, hash_value, now),
{
}

/// A gradual or per-user rollout at 0% reaches nobody and at 100% everybody.
pub proof fn law_rollout_extremes(flag: FlagView, user_segments: Seq<Seq<char>>, hash_value: nat, now: u64)
    requires
        flag.rollout_strategy == RolloutStrategy::Gradual || flag.rollout_strategy
            == RolloutStrategy::UserBased,
    ensures
        flag.rollout_percentage == 0 ==> !rollout_reaches(flag, user_segments, hash_value, now),
        flag.rollout_percentage >= 100 ==> rollout_reaches(flag, user_segments, hash_value, now),
{
}

/// Evaluations are repeatable: evaluating a flag changes only the analytics record,
/// and two states with the same flags and user segments evaluate alike.
pub proof fn law_evaluation_repeatable(
    c1: FeatureFlagContract,
    c2: FeatureFlagContract,
    key: Seq<char>,
    user: u64,
    now: u64,
)
    requires
        c2.flags == c1.flags,
        c2.user_segments == c1.user_segments,
    ensures
        c1.evaluation(key, user, user_hash(user), now) == c2.evaluation(key, user, user_hash(user), now),
{
}

/// `pick_variant` from a running total `cumulative` at or below the position: when the
/// position falls before the running total plus the arms' sum, some arm is chosen,
/// and the arm chosen is one whose interval of positions holds the position.
proof fn lemma_pick_variant_interval(allocs: Seq<(Seq<char>, u32)>, hash_value: nat, cumulative: int)
    requires
        cumulative <= hash_value % 100,
    ensures
        hash_value % 100 < cumulative + alloc_total(allocs) ==> pick_variant(
            allocs,
            hash_value,
            cumulative,
        ) is Some,
        pick_variant(allocs, hash_value, cumulative) matches Some(v) ==> exists|i: int|
            0 <= i < allocs.len() && #[trigger] allocs[i].0 == v && cumulative + alloc_total(
                allocs.take(i),
            ) <= hash_value % 100 < cumulative + alloc_total(allocs.take(i + 1)),
    decreases allocs.len(),
{
    if allocs.len() > 0 {
        let c = cumulative + allocs[0].1;
        let rest = allocs.drop_first();
        assert(allocs.take(0) =~= Seq::<(Seq<char>, u32)>::empty());
        assert(allocs.take(1).drop_first() =~= Seq::<(Seq<char>, u32)>::empty());
        assert(alloc_total(allocs.take(1).drop_first()) == 0);
        assert(allocs.take(1)[0] == allocs[0]);
        assert(alloc_total(allocs.take(1)) == allocs[0].1);
        if hash_value % 100 >= c {
            lemma_pick_variant_interval(rest, hash_value, c);
            if let Some(v) = pick_variant(rest, hash_value, c) {
                let j = choose|j: int|
                    0 <= j < rest.len() && #[trigger] rest[j].0 == v && c + alloc_total(
                        rest.take(j),
                    ) <= hash_value % 100 < c + alloc_total(rest.take(j + 1));
                assert(allocs.take(j + 1).drop_first() =~= rest.take(j));
                assert(allocs.take(j + 2).drop_first() =~= rest.take(j + 1));
                assert(allocs[j + 1] == rest[j]);
                assert(allocs.take(j + 1)[0] == allocs[0]);
                assert(allocs.take(j + 2)[0] == allocs[0]);
                assert(alloc_total(allocs.take(j + 1)) == allocs[0].1 + alloc_total(rest.take(j)));
                assert(alloc_total(allocs.take(j + 2)) == allocs[0].1 + alloc_total(
                    rest.take(j + 1),
                ));
                assert(allocs[j + 1].0 == v);
            }
        } else {
            assert(allocs[0].0 == pick_variant(allocs, hash_value, cumulative).unwrap());
        }
    }
}

/// An A/B test whose traffic allocation totals 100 gives every user a variant: the arm
/// whose share of positions holds the user's position modulo 100, the arms' shares
/// being laid out one after another in list order from 0.
pub proof fn law_variant_by_cumulative_share(allocs: Seq<(Seq<char>, u32)>, hash_value: nat)
    requires
        alloc_total(allocs) == 100,
    ensures
        pick_variant(allocs, hash_value, 0) is Some,
        exists|i: int|
            0 <= i < allocs.len() && #[trigger] allocs[i].0 == pick_variant(allocs, hash_value, 0)->0
                && alloc_total(allocs.take(i)) <= hash_value % 100 < alloc_total(allocs.take(i + 1)),
{
    lemma_pick_variant_interval(allocs, hash_value, 0);
}

/// A time-based rollout at `p` percent reaches a user exactly while the part of the day
/// elapsed (seconds since midnight, in whole percent of the day) is at most `p`: from
/// midnight until `(p + 1)` hundredths of the day have passed.
pub proof fn law_time_based_rollout(flag: FlagView, user_segments: Seq<Seq<char>>, hash_value: nat, now: u64)
    requires
        flag.rollout_strategy == RolloutStrategy::TimeBased,
    ensures
        rollout_reaches(flag, user_segments, hash_value, now) <==> (now % 86400) * 100 < (
        flag.rollout_percentage + 1) * 86400,
        now % 86400 == 0 ==> rollout_reaches(flag, user_segments, hash_value, now),
        flag.rollout_percentage >= 100 ==> rollout_reaches(flag, user_segments, hash_value, now),
{
    let t = (now % 86400) as int;
    let p = flag.rollout_percentage as int;
    assert(0 <= t < 86400);
    assert((t * 100 / 86400 <= p) <==> (t * 100 < (p + 1) * 86400)) by (nonlinear_arith)
        requires
            0 <= t < 86400,
            p >= 0,
    ;
}

} // verus!
