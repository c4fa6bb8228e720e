use gathera::access::{ReentrancyGuard, UpgradeTimelock};
use gathera::common_error::CommonError;
use gathera::core_contracts::{
    AccessControlContract, AccessControlError, RoleConfig, StorageConfig, StorageContract, StorageError,
};
use gathera::storage_init::{
    DataKey, InitializationConfig, InitializationState, StorageInitializationContract, StorageInitializationError,
};
use gathera::table::Table;
use gathera::upgrade::{UpgradeConfig, UpgradeContract, UpgradeState};
use gathera::utils::{
    CommonStatus, MapUtils, SortDirection, SortUtils, StatusUtils, StringUtils, TimeUtils, ValidationUtils,
    VecUtils,
};

fn s(x: &str) -> String {
    x.to_string()
}

#[test]
fn access_control_grant_then_revoke() {
    let mut a = AccessControlContract::new();
    assert_eq!(a.initialize(0, RoleConfig::default(), 0), Err(AccessControlError::InvalidAddress));
    a.initialize(1, RoleConfig::default(), 5).unwrap();
    assert_eq!(a.initialize(1, RoleConfig::default(), 5), Err(AccessControlError::AlreadyInitialized));
    assert_eq!(a.has_role(1, &s("ADMIN")), Ok(true));
    assert_eq!(a.grant_role(2, 3, s("MOD"), 6), Err(AccessControlError::Unauthorized));
    a.grant_role(1, 3, s("MOD"), 6).unwrap();
    assert_eq!(a.has_role(3, &s("MOD")), Ok(true));
    assert_eq!(a.require_role(3, &s("MOD")), Ok(()));
    a.revoke_role(1, 3, &s("MOD")).unwrap();
    assert_eq!(a.has_role(3, &s("MOD")), Ok(false));
    assert_eq!(a.revoke_role(1, 3, &s("MOD")), Err(AccessControlError::RoleNotFound));
    assert_eq!(a.require_role(3, &s("MOD")), Err(AccessControlError::InsufficientPermissions));
    assert_eq!(a.has_role(0, &s("MOD")), Err(AccessControlError::InvalidAddress));
    assert_eq!(a.check_access(1, &s("anything")), Ok(true));
    assert_eq!(a.get_config().unwrap().max_roles_per_user, 5);
}

#[test]
fn storage_contract_metrics() {
    let mut c = StorageContract::new();
    c.initialize(1, StorageConfig::default()).unwrap();
    assert_eq!(c.initialize(1, StorageConfig::default()), Err(StorageError::InitializationError));
    assert_eq!(c.optimize_storage(2, 10), Err(StorageError::AccessDenied));
    assert_eq!(c.optimize_storage(1, 10), Ok(1));
    assert_eq!(c.optimize_storage(1, 20), Ok(2));
    let m = c.get_metrics();
    assert_eq!((m.optimization_count, m.last_optimization), (2, 20));
    c.cleanup_expired(1, 0, 30).unwrap();
    assert_eq!(c.get_metrics().cleanup_count, 1);
    assert_eq!(c.get_config().unwrap().max_operations, 1_000_000);
    assert_eq!(c.is_healthy(), Ok(true));
}

fn init_config(validation_enabled: bool) -> InitializationConfig {
    InitializationConfig {
        strict_mode: true,
        auto_fix_issues: true,
        validation_enabled,
        backup_before_fix: false,
        max_retry_attempts: 3,
        initialization_timeout: 300,
    }
}

#[test]
fn storage_initialization_once() {
    let mut c = StorageInitializationContract::new();
    assert_eq!(c.get_initialization_state(), InitializationState::NotInitialized);
    c.initialize(1, init_config(true), 50).unwrap();
    assert_eq!(c.get_initialization_state(), InitializationState::Initialized);
    assert_eq!(c.initialize(1, init_config(true), 60), Err(StorageInitializationError::AlreadyInitialized));
    let keys: Vec<String> = c.get_validation_results().iter().map(|r| r.storage_key.clone()).collect();
    assert_eq!(keys, vec![s("admin"), s("version"), s("paused")]);
    assert!(c.get_validation_results().iter().all(|r| r.is_valid && r.validation_timestamp == 50));
    assert!(StorageInitializationContract::new().get_validation_results().is_empty());
    let health = c.get_storage_health();
    assert_eq!((health.total_keys, health.initialized_keys, health.last_validation), (3, 3, 50));
    let mut t = StorageInitializationContract::new();
    t.initialize_with_template(1, &s("default"), 0).unwrap();
    assert_eq!(t.config.unwrap().max_retry_attempts, 3);
}

#[test]
fn storage_guarded_access() {
    let mut c = StorageInitializationContract::new();
    assert_eq!(c.safe_get(DataKey::Version, Some(1u32)), Err(StorageInitializationError::NotInitialized));
    assert_eq!(c.safe_set(DataKey::Version), Err(StorageInitializationError::NotInitialized));
    c.initialize(1, init_config(false), 0).unwrap();
    assert_eq!(c.safe_get(DataKey::Version, Some(7u32)), Ok(7));
    assert_eq!(c.safe_get::<u32>(DataKey::Version, None), Err(StorageInitializationError::MissingRequiredKey));
    assert_eq!(c.safe_set(DataKey::Version), Ok(()));
    c.set_paused(true).unwrap();
    assert_eq!(c.safe_get(DataKey::Version, Some(7u32)), Err(StorageInitializationError::ContractPaused));
}

#[test]
fn upgrade_contract_flow() {
    let mut u = UpgradeContract::new();
    u.initialize(1, UpgradeConfig::default());
    assert_eq!(u.get_current_version(), 1);
    assert_eq!(u.get_config().min_notice_period, 86400);
    u.schedule_upgrade(1, 2, vec![7; 32], 0);
    assert_eq!(u.get_upgrade_state(), UpgradeState::Scheduled);
    let info = u.get_upgrade_info();
    assert_eq!((info.new_version, info.new_contract_hash.clone()), (2, vec![7; 32]));
    u.execute_upgrade(1, 86400);
    assert_eq!(u.get_current_version(), 2);
    assert_eq!(u.get_upgrade_state(), UpgradeState::Completed);
}

#[test]
fn reentrancy_guard_refuses_reentry() {
    let mut g = ReentrancyGuard::new();
    assert!(g.set_reentrancy_guard());
    assert!(!g.set_reentrancy_guard());
    g.remove_reentrancy_guard();
    assert!(g.set_reentrancy_guard());
}

#[test]
fn upgrade_timelock_runs_once_and_not_early() {
    let mut t = UpgradeTimelock::new();
    let hash = vec![7u8; 32];
    assert!(!t.can_execute(&hash, 0));
    t.schedule(hash.clone(), 100, 10);
    assert!(!t.can_execute(&hash, 99));
    assert!(!t.can_execute(&vec![8u8; 32], 100));
    assert!(t.can_execute(&hash, 100));
    t.execute(&hash, 100);
    assert!(!t.can_execute(&hash, 200));
    t.schedule(hash.clone(), 300, 200);
    t.cancel();
    assert!(!t.can_execute(&hash, 400));
}

#[test]
fn common_error_codes() {
    assert_eq!(CommonError::AlreadyInitialized.code(), 100);
    assert_eq!(CommonError::InvalidAmount.code(), 109);
    assert_eq!(CommonError::AccessDenied.code(), 113);
}

#[test]
fn utils_validation_time_and_status() {
    assert!(ValidationUtils::validate_amount(1, 10));
    assert!(!ValidationUtils::validate_amount(0, 10));
    assert!(!ValidationUtils::validate_amount(11, 10));
    assert!(ValidationUtils::validate_timestamp(105, 100, 10));
    assert!(!ValidationUtils::validate_timestamp(99, 100, 10));
    assert!(!ValidationUtils::validate_timestamp(111, 100, 10));
    assert!(ValidationUtils::validate_timestamp(u64::MAX, 10, u64::MAX));
    assert!(ValidationUtils::validate_symbol("TICKET"));
    assert!(!ValidationUtils::validate_symbol(""));
    assert!(!ValidationUtils::validate_string("abcdef", 5));
    assert!(!ValidationUtils::validate_string("héllo", 5));
    assert!(ValidationUtils::validate_string("héllo", 6));
    assert_eq!(TimeUtils::add_duration(100, 50), 150);
    assert!(TimeUtils::is_past(99, 100));
    assert!(TimeUtils::is_future(101, 100));
    assert_eq!(TimeUtils::time_diff(3, 10), 7);
    assert_eq!(TimeUtils::time_diff(10, 3), 7);
    assert!(StatusUtils::is_active(CommonStatus::Active));
    assert!(StatusUtils::is_terminal(CommonStatus::Cancelled));
    assert!(!StatusUtils::is_terminal(CommonStatus::Suspended));
    assert!(StatusUtils::allows_modifications(CommonStatus::Suspended));
    assert!(!StatusUtils::allows_modifications(CommonStatus::Completed));
}

#[test]
fn utils_strings_vectors_maps() {
    assert!(StringUtils::is_alphanumeric("abc123"));
    assert!(!StringUtils::is_alphanumeric("abc-123"));
    // Lengths count bytes: "é" takes two.
    assert_eq!(StringUtils::truncate("héllo", 3), s("hé"));
    assert_eq!(StringUtils::truncate("hello", 2), s("he"));
    assert_eq!(StringUtils::truncate("hi", 5), s("hi"));
    assert_eq!(StringUtils::to_uppercase("abc"), s("ABC"));
    assert_eq!(StringUtils::to_lowercase("AbC"), s("abc"));
    assert!(VecUtils::contains(&vec![1, 2, 3], 2));
    assert!(!VecUtils::contains(&vec![1, 2, 3], 4));
    assert_eq!(VecUtils::remove_duplicates(&vec![3, 1, 3, 2, 1]), vec![3, 1, 2]);
    assert!(VecUtils::is_empty_or_invalid(&Vec::new()));
    let mut a: Table<u32> = Table::new();
    a.insert(1, 10);
    a.insert(2, 20);
    let mut b: Table<u32> = Table::new();
    b.insert(2, 99);
    b.insert(3, 30);
    assert_eq!(MapUtils::get_or_default(&a, 1, 0), 10);
    assert_eq!(MapUtils::get_or_default(&a, 9, 0), 0);
    assert!(MapUtils::contains_key(&b, 3));
    let m = MapUtils::merge(&a, &b);
    assert_eq!(MapUtils::get_or_default(&m, 1, 0), 10);
    assert_eq!(MapUtils::get_or_default(&m, 2, 0), 99);
    assert_eq!(MapUtils::get_or_default(&m, 3, 0), 30);
    assert_eq!(m.entries.len(), 3);
}

#[test]
fn utils_sort_direction() {
    let mut v = vec![5u64, 1, 4, 1, 3];
    SortUtils::apply_sort_direction(&mut v, SortDirection::Ascending);
    assert_eq!(v, vec![1, 1, 3, 4, 5]);
    SortUtils::apply_sort_direction(&mut v, SortDirection::Descending);
    assert_eq!(v, vec![5, 4, 3, 1, 1]);
    let mut e: Vec<u64> = vec![];
    SortUtils::apply_sort_direction(&mut e, SortDirection::Descending);
    assert!(e.is_empty());
}

#[test]
fn constructors_start_empty() {
    let r = gathera::zk_contract::ZKTicketContract::new();
    assert_eq!(r.get_revoked_commitments().err(), Some(gathera::zk_ticket::ZKTicketError::NotInitialized));
    let u = UpgradeContract::new();
    assert!(u.current_version.is_none() && u.state.is_none());
    let s = StorageInitializationContract::new();
    assert_eq!((s.version, s.paused), (1, false));
}
