use gathera::gas::{GasBenchmark, GasRegressionTest, GasTestFramework};
use soroban_sdk::testutils::Ledger;
use soroban_sdk::Env;

fn s(x: &str) -> String {
    x.to_string()
}

#[test]
fn test_gas_framework_creation() {
    let env = Env::default();
    let framework = GasTestFramework::new(&env);
    assert_eq!(framework.measurements.len(), 0);
    assert_eq!(framework.benchmarks.entries.len(), 0);
}

#[test]
fn test_default_benchmarks() {
    let env = Env::default();
    let framework = GasTestFramework::with_defaults(&env);
    assert!(framework.benchmarks.contains_key(&s("ticket_initialize")));
    assert!(framework.benchmarks.contains_key(&s("escrow_create")));
}

#[test]
fn test_benchmark_registration() {
    let env = Env::default();
    let mut framework = GasTestFramework::new(&env);
    framework.register_benchmark(GasBenchmark {
        operation: s("test_operation"),
        expected_max_gas: 100000,
        expected_min_gas: Some(50000),
        tolerance_percentage: 10,
    });
    assert!(framework.benchmarks.contains_key(&s("test_operation")));
}

#[test]
fn test_gas_measurement() {
    let env = Env::default();
    let mut framework = GasTestFramework::new(&env);
    let contract_address: u64 = 7;
    let operation = s("test_operation");
    let result: u32 = framework.measure_gas(operation.clone(), Some(contract_address), || 42);
    assert_eq!(result, 42);
    assert_eq!(framework.measurements.len(), 1);
    let measurement = framework.get_latest_measurement(&operation).unwrap();
    assert_eq!(measurement.operation, operation);
    assert!(measurement.gas_used > 0);
}

#[test]
fn gas_measured_from_ledger_sequence() {
    let env = Env::default();
    let mut framework = GasTestFramework::new(&env);
    let result: u32 = framework.measure_gas(s("idle"), Some(7), || 42);
    assert_eq!(result, 42);
    assert_eq!(framework.measurements.len(), 1);
    // The ledger did not advance: the one ledger the operation ran in is charged.
    assert_eq!(framework.get_latest_measurement(&s("idle")).unwrap().gas_used, 1000);
    let start = env.ledger().sequence();
    framework.measure_gas(s("busy"), None, || env.ledger().set_sequence_number(start + 3));
    let m = framework.get_latest_measurement(&s("busy")).unwrap();
    assert_eq!(m.gas_used, 3000);
    assert_eq!(m.contract_address, None);
    assert!(framework.get_latest_measurement(&s("other")).is_none());
}

#[test]
fn gas_benchmark_and_regression_checks() {
    let env = Env::default();
    let mut f = GasTestFramework::with_defaults(&env);
    let op = s("escrow_create");
    assert_eq!(f.assert_gas_benchmark(&s("unknown")), Err(s("no_benchmark_registered")));
    assert_eq!(f.assert_gas_benchmark(&op), Err(s("no_gas_measurement")));
    f.record_measurement(op.clone(), 0, 130, 0, None);
    assert_eq!(f.assert_gas_benchmark(&op), Err(s("gas_exceeded_maximum")));
    assert_eq!(f.assert_no_regression(&op), Ok(()));
    f.record_measurement(op.clone(), 0, 70, 0, None);
    assert_eq!(f.assert_gas_benchmark(&op), Err(s("gas_below_minimum")));
    f.record_measurement(op.clone(), 0, 90, 0, None);
    // 120000 - 90000 = 30000 > 20% of 120000.
    assert_eq!(f.assert_gas_benchmark(&op), Err(s("gas_exceeded_tolerance")));
    f.record_measurement(op.clone(), 0, 100, 0, None);
    assert_eq!(f.assert_gas_benchmark(&op), Ok(()));
    f.register_regression_test(GasRegressionTest { operation: op.clone(), baseline_gas: 50000, max_regression_percentage: 10 });
    assert_eq!(f.assert_no_regression(&op), Err(s("gas_regression_detected")));
    assert_eq!(f.assert_no_regression(&s("unknown")), Err(s("no_regression_test")));
    assert_eq!(f.get_measurements_for_operation(&op).len(), 4);
}

#[test]
fn gas_report_lines() {
    let env = Env::default();
    let mut f = GasTestFramework::new(&env);
    f.record_measurement(s("a"), 0, 1, 0, None);
    f.record_measurement(s("b"), 0, 5, 0, None);
    f.record_measurement(s("a"), 0, 3, 0, None);
    let report = f.generate_report();
    assert_eq!(
        report,
        vec![
            s("gas_usage_report"),
            s("total_measurements:3"),
            s("a:latest_gas:3000"),
            s("a:min_gas:1000"),
            s("a:max_gas:3000"),
            s("a:avg_gas:2000"),
            s("b:latest_gas:5000"),
        ]
    );
    f.clear_measurements();
    assert_eq!(f.generate_report(), vec![s("gas_usage_report"), s("total_measurements:0")]);
}
