use gathera::feature_flag::{
    ABTestStatus, Attributes, Environment, FeatureFlagContract, FeatureFlagError, RolloutStage,
    RolloutStrategy, TestVariant,
};
use soroban_sdk::{Env, IntoVal, Symbol, Val};

const ADMIN: u64 = 1;
const CREATED_BY: u64 = 2;
const USER: u64 = 3;

fn s(x: &str) -> String {
    x.to_string()
}

fn empty() -> Attributes {
    Attributes { entries: Vec::new() }
}

fn contract() -> FeatureFlagContract {
    let mut c = FeatureFlagContract::new();
    c.initialize(ADMIN).unwrap();
    c
}

fn create(c: &mut FeatureFlagContract, key: &str, enabled: bool, pct: u32, env: Environment, strategy: RolloutStrategy) {
    c.create_feature_flag(s(key), enabled, pct, env, s("Test feature"), CREATED_BY, Vec::new(), strategy, 0)
        .unwrap();
}

fn variants(a: &str, b: &str) -> Vec<TestVariant> {
    vec![
        TestVariant { id: s(a), name: s("Control Group"), weight: 50, config: empty() },
        TestVariant { id: s(b), name: s("Variant"), weight: 50, config: empty() },
    ]
}

#[test]
fn feature_flag_test_initialize() {
    let c = contract();
    assert_eq!(c.version(), 1);
}

#[test]
fn test_create_feature_flag() {
    let mut c = contract();
    let tags = vec![s("beta"), s("experimental")];
    c.create_feature_flag(
        s("new_feature"),
        true,
        50,
        Environment::Production,
        s("Test feature for gradual rollout"),
        CREATED_BY,
        tags,
        RolloutStrategy::Gradual,
        0,
    )
    .unwrap();
    let flag = c.get_feature_flag(&s("new_feature")).unwrap();
    assert_eq!(flag.key, s("new_feature"));
    assert!(flag.enabled);
    assert_eq!(flag.rollout_percentage, 50);
    assert_eq!(flag.environment, Environment::Production);
    assert_eq!(flag.created_by, CREATED_BY);
}

#[test]
fn test_evaluate_flag_gradual_rollout() {
    let env = Env::default();
    let mut c = contract();
    create(&mut c, "test_feature", true, 50, Environment::Production, RolloutStrategy::Gradual);
    let result = c.evaluate_flag(&env, &s("test_feature"), USER, empty(), 0).unwrap();
    let result2 = c.evaluate_flag(&env, &s("test_feature"), USER, empty(), 0).unwrap();
    assert_eq!(result, result2);
}

#[test]
fn test_evaluate_flag_segmented() {
    let env = Env::default();
    let mut c = contract();
    create(&mut c, "segmented_feature", true, 100, Environment::Production, RolloutStrategy::Segmented);
    c.add_user_segment(USER, vec![s("beta_users")], empty(), 0).unwrap();
    let result = c.evaluate_flag(&env, &s("segmented_feature"), USER, empty(), 0).unwrap();
    assert!(!result);
}

#[test]
fn test_create_ab_test() {
    let mut c = contract();
    c.create_ab_test(
        s("test_ab"),
        s("A/B Test for Feature"),
        s("feature_to_test"),
        variants("control", "variant_a"),
        vec![(s("control"), 50), (s("variant_a"), 50)],
        0,
        86400 * 7,
        1000,
        95,
    )
    .unwrap();
    let test = c.get_ab_test(&s("test_ab")).unwrap();
    assert_eq!(test.id, s("test_ab"));
    assert_eq!(test.feature_flag, s("feature_to_test"));
    assert_eq!(test.status, ABTestStatus::Draft);
    assert_eq!(test.variants.len(), 2);
}

#[test]
fn test_get_ab_test_variant() {
    let env = Env::default();
    let mut c = contract();
    let now = 10_000;
    c.create_ab_test(
        s("variant_test"),
        s("Test"),
        s("feature"),
        variants("control", "treatment"),
        vec![(s("control"), 50), (s("treatment"), 50)],
        now - 3600,
        now + 86400 * 7,
        1000,
        95,
    )
    .unwrap();
    let variant = c.get_ab_test_variant(&env, &s("variant_test"), USER, now).unwrap();
    let variant2 = c.get_ab_test_variant(&env, &s("variant_test"), USER, now).unwrap();
    assert_eq!(variant, variant2);
    if let Some(id) = variant {
        assert!(id == s("control") || id == s("treatment"));
    }
}

#[test]
fn test_create_rollout_plan() {
    let mut c = contract();
    let stage = |percentage: u32, duration: u64| RolloutStage { percentage, duration, criteria: Vec::new(), completed: false };
    let stages = vec![stage(10, 86400), stage(50, 86400 * 3), stage(100, 86400 * 7)];
    c.create_rollout_plan(s("gradual_feature"), stages, true, 0).unwrap();
    let plan = c.get_rollout_plan(&s("gradual_feature")).unwrap();
    assert_eq!(plan.feature_flag, s("gradual_feature"));
    assert_eq!(plan.stages.len(), 3);
    assert_eq!(plan.current_stage, 0);
    assert!(plan.auto_advance);
}

#[test]
fn test_kill_switch() {
    let env = Env::default();
    let mut c = contract();
    create(&mut c, "critical_feature", true, 100, Environment::Production, RolloutStrategy::Immediate);
    let key = s("critical_feature");
    assert!(c.evaluate_flag(&env, &key, USER, empty(), 0).unwrap());
    c.activate_kill_switch(&key, s("Critical bug discovered"), true, Some(3600), 0).unwrap();
    assert!(!c.evaluate_flag(&env, &key, USER, empty(), 0).unwrap());
    c.deactivate_kill_switch(&key).unwrap();
    assert!(c.evaluate_flag(&env, &key, USER, empty(), 0).unwrap());
}

#[test]
fn test_user_segmentation() {
    let env = Env::default();
    let mut c = contract();
    let tier: Val = Symbol::new(&env, "premium").into_val(&env);
    let joined: Val = 1640995200u64.into_val(&env);
    let attributes = Attributes { entries: vec![(s("tier"), tier), (s("join_date"), joined)] };
    c.add_user_segment(USER, vec![s("premium"), s("early_adopter")], attributes, 0).unwrap();
    let seg = c.get_user_segment(USER);
    assert_eq!(seg.user, USER);
    assert_eq!(seg.segments.len(), 2);
    assert!(seg.segments.contains(&s("premium")));
    assert!(seg.segments.contains(&s("early_adopter")));
    let stored = seg.attributes.entries.iter().find(|(k, _)| k == "tier").map(|(_, v)| v.get_payload());
    assert_eq!(stored, Some(tier.get_payload()));
}

#[test]
fn test_update_feature_flag() {
    let mut c = contract();
    c.create_feature_flag(
        s("updatable_feature"),
        false,
        25,
        Environment::Development,
        s("Original description"),
        CREATED_BY,
        Vec::new(),
        RolloutStrategy::Immediate,
        0,
    )
    .unwrap();
    let key = s("updatable_feature");
    c.update_feature_flag(&key, Some(true), Some(75), Some(s("Updated description")), Some(vec![s("updated")]), 0)
        .unwrap();
    let flag = c.get_feature_flag(&key).unwrap();
    assert!(flag.enabled);
    assert_eq!(flag.rollout_percentage, 75);
    assert_eq!(flag.description, s("Updated description"));
    assert_eq!(flag.tags.len(), 1);
    assert!(flag.tags.contains(&s("updated")));
}

#[test]
fn test_test_pause_unpause() {
    let mut c = contract();
    c.pause().unwrap();
    assert!(c.paused);
    c.unpause().unwrap();
    assert!(!c.paused);
}

#[test]
fn feature_flag_rollout_extremes() {
    let mut c = contract();
    create(&mut c, "none", true, 0, Environment::Production, RolloutStrategy::Gradual);
    create(&mut c, "all", true, 100, Environment::Production, RolloutStrategy::Gradual);
    for h in [0u32, 1, 50, 99, 12345, u32::MAX] {
        assert!(!c.evaluate_with_hash(&s("none"), USER, empty(), h, 0).unwrap());
        assert!(c.evaluate_with_hash(&s("all"), USER, empty(), h, 0).unwrap());
    }
    // At 50%, users are placed by their hash modulo 100.
    create(&mut c, "half", true, 50, Environment::Production, RolloutStrategy::Gradual);
    assert!(c.evaluate_with_hash(&s("half"), USER, empty(), 149, 0).unwrap());
    assert!(!c.evaluate_with_hash(&s("half"), USER, empty(), 150, 0).unwrap());
}

#[test]
fn feature_flag_errors() {
    let mut c = contract();
    assert_eq!(FeatureFlagContract::validate_percentage(101), Err(FeatureFlagError::InvalidPercentage));
    assert_eq!(FeatureFlagContract::validate_percentage(100), Ok(()));
    let r = c.create_feature_flag(s("x"), true, 101, Environment::Production, s("d"), CREATED_BY, Vec::new(), RolloutStrategy::Gradual, 0);
    assert_eq!(r, Err(FeatureFlagError::InvalidPercentage));
    create(&mut c, "x", true, 10, Environment::Production, RolloutStrategy::Gradual);
    let r = c.create_feature_flag(s("x"), true, 10, Environment::Production, s("d"), CREATED_BY, Vec::new(), RolloutStrategy::Gradual, 0);
    assert_eq!(r, Err(FeatureFlagError::DuplicateFlag));
    let r = c.create_ab_test(s("t"), s("n"), s("x"), variants("a", "b"), vec![(s("a"), 50), (s("b"), 40)], 0, 10, 1, 1);
    assert_eq!(r, Err(FeatureFlagError::InvalidTrafficAllocation));
    assert_eq!(c.get_ab_test(&s("missing")).err(), Some(FeatureFlagError::ABTestNotFound));
}
