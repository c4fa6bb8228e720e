use gathera::escrow::{EscrowError, EscrowProxyContract, EscrowService, EscrowStatus, EscrowUpgradeManager, UpgradeManagerError};
use soroban_sdk::{Bytes, Env};

fn s(x: &str) -> String {
    x.to_string()
}

fn proxy() -> EscrowProxyContract {
    let mut p = EscrowProxyContract::new();
    p.initialize(1, 2, 3, 4, 5).unwrap();
    p
}

#[test]
fn escrow_revenue_split_exact_shares() {
    let shares = EscrowProxyContract::calculate_revenue_split_proxy(1000, 7000, 2000, 1000).unwrap();
    assert_eq!(shares.organizer, 700);
    assert_eq!(shares.platform, 200);
    assert_eq!(shares.referral, Some(100));
    let shares = EscrowProxyContract::calculate_revenue_split_proxy(101, 7000, 2000, 1000).unwrap();
    assert_eq!((shares.organizer, shares.platform, shares.referral), (70, 20, Some(10)));
    let shares = EscrowProxyContract::calculate_revenue_split_proxy(1000, 8000, 2000, 0).unwrap();
    assert_eq!(shares.referral, None);
    assert_eq!(
        EscrowProxyContract::calculate_revenue_split_proxy(1000, 8000, 2000, 1),
        Err(EscrowError::InvalidPercentage)
    );
}

#[test]
fn escrow_proxy_ids_and_records() {
    let env = Env::default();
    let mut p = EscrowProxyContract::new();
    assert_eq!(p.create_escrow_proxy(&env, 10, 11, 12, 500, 99, 1000), Err(EscrowError::NotInitialized));
    let mut p2 = proxy();
    let id = p2.create_escrow_proxy(&env, 10, 11, 12, 500, 99, 1000).unwrap();
    let mut msg = Vec::new();
    msg.extend_from_slice(&10u64.to_le_bytes());
    msg.extend_from_slice(&12u64.to_le_bytes());
    msg.extend_from_slice(&500u128.to_le_bytes());
    let expected = env.crypto().sha256(&Bytes::from_slice(&env, &msg)).to_array().to_vec();
    assert_eq!(id, expected);
    let e = p2.escrows.find(&id).map(|i| p2.escrows.entries[i].1).unwrap();
    assert_eq!(e.status, EscrowStatus::Locked);
    assert_eq!(e.amount, 500);
    // The dispute id comes from the time and the id's last eight bytes.
    let mut low = [0u8; 8];
    low.copy_from_slice(&id[24..]);
    let expected_id = ((7u64.wrapping_add(u64::from_be_bytes(low)) % 0x1_0000_0000) % 1_000_000) as u32;
    if (u64::MAX - 7) >= u64::from_be_bytes(low) {
        let did = p2.create_dispute_proxy(&id, 11, 10, s("late"), vec![s("photo")], 7).unwrap();
        assert_eq!(did, expected_id);
    }
    p.initialize(1, 2, 3, 4, 5).unwrap();
    assert_eq!(p.initialize(1, 2, 3, 4, 5), Err(EscrowError::AlreadyInitialized));
}

#[test]
fn escrow_referrals_and_services() {
    let mut p = proxy();
    assert_eq!(p.track_referral_proxy(7, 7), Ok(false));
    assert_eq!(p.track_referral_proxy(7, 8), Ok(true));
    assert_eq!(p.track_referral_proxy(7, 9), Ok(true));
    assert_eq!(p.referrals.find(7).map(|i| p.referrals.entries[i].1), Some(2));
    assert_eq!(EscrowProxyContract::parse_service(&s("dispute_resolution")), Some(EscrowService::DisputeResolution));
    assert_eq!(EscrowProxyContract::parse_service(&s("other")), None);
    p.update_contract(&s("referral_tracking"), 42).unwrap();
    assert_eq!(p.get_config().unwrap().referral_tracking_contract, 42);
    assert_eq!(p.update_contract(&s("other"), 42), Err(EscrowError::InvalidAddress));
}

#[test]
fn escrow_upgrade_manager_timelock() {
    let mut m = EscrowUpgradeManager::new();
    let hash = vec![1u8; 32];
    assert_eq!(m.schedule_upgrade(hash.clone(), 100, s("k"), 100), Err(UpgradeManagerError::UnlockNotInFuture));
    m.schedule_upgrade(hash.clone(), 100, s("k"), 0).unwrap();
    assert_eq!(m.execute_upgrade(&hash, &s("other"), 200), Err(UpgradeManagerError::NoUpgradeScheduled));
    assert_eq!(m.execute_upgrade(&vec![2u8; 32], &s("k"), 200), Err(UpgradeManagerError::HashMismatch));
    assert_eq!(m.execute_upgrade(&hash, &s("k"), 99), Err(UpgradeManagerError::TimelockNotExpired));
    m.execute_upgrade(&hash, &s("k"), 100).unwrap();
    assert_eq!(m.execute_upgrade(&hash, &s("k"), 100), Err(UpgradeManagerError::NoUpgradeScheduled));
    assert!(m.validate_upgrade_compatibility(2));
    assert!(!m.validate_upgrade_compatibility(3));
    assert_eq!(m.migrate_state(1), Err(UpgradeManagerError::VersionNotGreater));
    m.migrate_state(3).unwrap();
    assert!(m.validate_upgrade_compatibility(4));
    m.schedule_upgrade(hash.clone(), 100, s("k"), 0).unwrap();
    m.cancel_upgrade(&s("k"));
    assert_eq!(m.execute_upgrade(&hash, &s("k"), 200), Err(UpgradeManagerError::NoUpgradeScheduled));
}

#[test]
fn escrow_error_codes() {
    assert_eq!(EscrowError::AlreadyInitialized.code(), 600);
    assert_eq!(EscrowError::ArithmeticError.code(), 600 + 23);
}
