use gathera::ticket::TicketError;
use gathera::ticket_core::{
    ContractType, CoreTicketContract, PricingConfig, PricingEngine, ProxyError, TicketProxyContract,
};

fn s(x: &str) -> String {
    x.to_string()
}

fn pricing(frozen: bool) -> PricingConfig {
    PricingConfig {
        oracle_address: 10,
        dex_pool_address: 11,
        price_floor: 0,
        price_ceiling: 1_000_000,
        update_frequency: 3600,
        last_update_time: 0,
        is_frozen: frozen,
        oracle_pair: s("XLM/USD"),
        oracle_reference_price: 0,
        max_oracle_age_seconds: 300,
    }
}

#[test]
fn ticket_mint_takes_next_ids_until_sold_out() {
    let mut c = CoreTicketContract::new();
    c.initialize(1, s("Gathera"), s("GTH"), s("uri"), 1000, 500).unwrap();
    assert_eq!(c.initialize(1, s("x"), s("y"), s("z"), 0, 0), Err(TicketError::AlreadyInitialized));
    c.create_tier(s("VIP"), s("VIP"), 3, 500, 0).unwrap();
    assert_eq!(c.mint_ticket(7, &s("VIP"), 2, 0).unwrap(), vec![0, 1]);
    assert_eq!(c.mint_ticket(8, &s("VIP"), 1, 0).unwrap(), vec![2]);
    assert_eq!(c.mint_ticket(8, &s("VIP"), 1, 0), Err(TicketError::TierSoldOut));
    assert_eq!(c.mint_ticket(8, &s("GA"), 1, 0), Err(TicketError::TierNotFound));
    let t = c.get_ticket(1).unwrap();
    assert_eq!(t.owner, 7);
    assert_eq!(t.tier_id, s("VIP"));
    let tier = c.get_tier(&s("VIP")).unwrap();
    assert_eq!(
        (tier.id, tier.name, tier.max_supply, tier.current_supply, tier.price, tier.active, tier.created_at),
        (s("VIP"), s("VIP"), 3, 3, 500, true, 0)
    );
    assert_eq!(c.name(), s("Gathera"));
    assert_eq!(c.symbol(), s("GTH"));
    assert_eq!(c.version(), 1);
}

#[test]
fn ticket_create_tier_needs_initialization() {
    let mut c = CoreTicketContract::new();
    assert_eq!(c.create_tier(s("VIP"), s("VIP"), 3, 500, 0), Err(TicketError::Unauthorized));
}

#[test]
fn pricing_formula_exact_values() {
    // Tier 1 adds 20%, six tickets take 2% off, the oracle is unavailable (1x).
    let late = PricingEngine::calculate_price(&pricing(false), 1000, 1, 6, 90_000, None);
    assert_eq!(late, 1176);
    // Within a day of the last update the early-bird 10% of the base price comes off.
    let early = PricingEngine::calculate_price(&pricing(false), 1000, 1, 6, 100, None);
    assert_eq!(early, 1076);
    // An oracle multiplier of 1.5x applies unless pricing is frozen.
    assert_eq!(PricingEngine::calculate_price(&pricing(false), 1000, 0, 1, 90_000, Some(15000)), 1500);
    assert_eq!(PricingEngine::calculate_price(&pricing(true), 1000, 0, 1, 90_000, Some(15000)), 1000);
    // Bounds.
    let mut bounded = pricing(false);
    bounded.price_floor = 2000;
    bounded.price_ceiling = 3000;
    assert_eq!(PricingEngine::calculate_price(&bounded, 1000, 0, 1, 90_000, None), 2000);
    assert_eq!(PricingEngine::calculate_price(&bounded, 1000, 3, 1, 90_000, Some(20000)), 3000);
}

#[test]
fn pricing_checked_variant_refuses_overflow() {
    assert_eq!(PricingEngine::try_calculate_price(&pricing(false), 1000, 1, 6, 90_000, None), Some(1176));
    assert_eq!(PricingEngine::try_calculate_price(&pricing(false), i128::MAX / 10, 0, 1, 90_000, None), None);
    assert_eq!(PricingEngine::try_calculate_price(&pricing(false), 1000, 0, 1, 90_000, Some(i128::MAX)), None);
}

#[test]
fn pricing_config_validation_and_updates() {
    let mut c = pricing(false);
    assert_eq!(PricingEngine::validate_config(&c), Ok(()));
    c.update_frequency = 0;
    assert_eq!(PricingEngine::validate_config(&c), Err(s("Invalid update frequency")));
    c.price_floor = c.price_ceiling;
    assert_eq!(PricingEngine::validate_config(&c), Err(s("Invalid price bounds")));
    let c = pricing(false);
    assert!(!PricingEngine::should_update_pricing(&c, 3599));
    assert!(PricingEngine::should_update_pricing(&c, 3600));
}

#[test]
fn proxy_routes_updates_by_name() {
    let mut p = TicketProxyContract::new();
    assert_eq!(p.update_contract(&s("vrf"), 9), Err(ProxyError::NotInitialized));
    p.initialize(1, 2, 3, 4, 5).unwrap();
    assert_eq!(p.initialize(1, 2, 3, 4, 5), Err(ProxyError::AlreadyInitialized));
    p.update_contract(&s("vrf"), 9).unwrap();
    assert_eq!(p.get_config().unwrap().vrf_contract, 9);
    assert_eq!(p.update_contract(&s("oracle"), 9), Err(ProxyError::InvalidContractType));
    assert_eq!(TicketProxyContract::parse_contract_type(&s("pricing")), Some(ContractType::Pricing));
    assert_eq!(TicketProxyContract::parse_contract_type(&s("Pricing")), None);
}
