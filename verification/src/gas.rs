//! Gas measurement for the contracts' test suites: measurements of operations,
//! benchmarks and regression limits they are checked against, and a report.
//!
//! Gas is approximated from the host ledger: 1000 units per ledger sequence number
//! that passed while an operation ran.
use vstd::prelude::*;
use crate::table::StrTable;
use crate::access::str_eq;

verus! {

/// Gas units per ledger sequence number.
pub const GAS_PER_SEQUENCE: u64 = 1000;

/// The gas measured for one run of an operation.
pub struct GasMeasurement {
    pub operation: String,
    pub gas_used: u64,
    pub timestamp: u64,
    pub contract_address: Option<u64>,
}

/// The value of a measurement.
pub struct MeasurementView {
    pub operation: Seq<char>,
    pub gas_used: u64,
    pub timestamp: u64,
    pub contract_address: Option<u64>,
}

impl View for GasMeasurement {
    type V = MeasurementView;

    open spec fn view(&self) -> MeasurementView {
        MeasurementView {
            operation: self.operation@,
            gas_used: self.gas_used,
            timestamp: self.timestamp,
            contract_address: self.contract_address,
        }
    }
}

impl GasMeasurement {
    /// A copy of the measurement.
    pub fn copy(&self) -> (r: Self)
        ensures
            r@ == self@,
    {
        GasMeasurement {
            operation: self.operation.clone(),
            gas_used: self.gas_used,
            timestamp: self.timestamp,
            contract_address: self.contract_address,
        }
    }
}

/// The values of a list of measurements.
pub open spec fn views(s: Seq<GasMeasurement>) -> Seq<MeasurementView> {
    s.map_values(|m: GasMeasurement| m@)
}

/// The bounds an operation's gas must keep.
pub struct GasBenchmark {
    pub operation: String,
    pub expected_max_gas: u64,
    pub expected_min_gas: Option<u64>,
    pub tolerance_percentage: u32,
}

/// How far an operation's gas may grow over a baseline.
pub struct GasRegressionTest {
    pub operation: String,
    pub baseline_gas: u64,
    pub max_regression_percentage: u32,
}

/// A gas limit an operation should or should not fit in.
pub struct GasLimitTest {
    pub operation: String,
    pub gas_limit: u64,
    pub should_succeed: bool,
}

/// The last measurement of an operation.
pub open spec fn latest_of(s: Seq<MeasurementView>, op: Seq<char>) -> Option<MeasurementView>
    decreases s.len(),
{
    if s.len() == 0 {
        None
    } else if s.last().operation == op {
        Some(s.last())
    } else {
        latest_of(s.drop_last(), op)
    }
}

/// The measurements of an operation, in order.
pub open spec fn of_operation(s: Seq<MeasurementView>, op: Seq<char>) -> Seq<MeasurementView>
    decreases s.len(),
{
    if s.len() == 0 {
        Seq::empty()
    } else {
        let p = of_operation(s.drop_last(), op);
        if s.last().operation == op {
            p.push(s.last())
        } else {
            p
        }
    }
}

/// The gas charged for an operation run between two ledger sequence numbers: the
/// ledgers that passed, and at least the one ledger it ran in when the ledger did not
/// advance, so every measured operation costs something.
pub open spec fn gas_between(initial: u32, last: u32) -> u64 {
    if last > initial {
        ((last - initial) * GAS_PER_SEQUENCE) as u64
    } else {
        GAS_PER_SEQUENCE
    }
}

/// The outcome of checking an operation's last measurement against its benchmark,
/// checked in this order: no benchmark; no measurement; above the maximum; below the
/// minimum; further from the maximum than the tolerance allows.
pub open spec fn benchmark_outcome(b: Option<(u64, Option<u64>, u32)>, m: Option<MeasurementView>) -> Result<
    (),
    Seq<char>,
> {
    match b {
        None => Err("no_benchmark_registered"@),
        Some((max_gas, min_gas, tolerance)) => match m {
            None => Err("no_gas_measurement"@),
            Some(m) => if m.gas_used > max_gas {
                Err("gas_exceeded_maximum"@)
            } else if min_gas is Some && m.gas_used < min_gas.unwrap() {
                Err("gas_below_minimum"@)
            } else if max_gas - m.gas_used > max_gas * tolerance / 100 {
                Err("gas_exceeded_tolerance"@)
            } else {
                Ok(())
            },
        },
    }
}

/// The outcome of checking an operation's last measurement against its regression
/// limit: the baseline plus the allowed percentage of it.
pub open spec fn regression_outcome(t: Option<(u64, u32)>, m: Option<MeasurementView>) -> Result<
    (),
    Seq<char>,
> {
    match t {
        None => Err("no_regression_test"@),
        Some((baseline, pct)) => match m {
            None => Err("no_gas_measurement"@),
            Some(m) => if m.gas_used > baseline + baseline * pct / 100 {
                Err("gas_regression_detected"@)
            } else {
                Ok(())
            },
        },
    }
}

/// The error text of a check.
fn text(s: &str) -> (r: String)
    ensures
        r@ == s@,
{
    String::from_str(s)
}

/// Takes a clone of the host environment (`Env::clone`). `Env` derives `Clone`, and its
/// clone is a handle to the same host environment: the contract claims the clone is
/// that environment.
#[verifier::external_body]
fn clone_env(env: &soroban_sdk::Env) -> (r: soroban_sdk::Env)
    ensures
        r == *env,
{
    env.clone()
}

/// Reads the host ledger's sequence number (`Ledger::sequence`); it depends on the
/// ledger's state, so nothing is promised of it.
#[verifier::external_body]
fn ledger_sequence(env: &soroban_sdk::Env) -> u32 {
    env.ledger().sequence()
}

/// Reads the host ledger's timestamp (`Ledger::timestamp`); it depends on the ledger's
/// state, so nothing is promised of it.
#[verifier::external_body]
fn ledger_timestamp(env: &soroban_sdk::Env) -> u64 {
    env.ledger().timestamp()
}

/// The gas measurement framework of a test suite.
pub struct GasTestFramework {
    pub env: soroban_sdk::Env,
    pub measurements: Vec<GasMeasurement>,
    pub benchmarks: StrTable<GasBenchmark>,
    pub regression_tests: StrTable<GasRegressionTest>,
    pub limit_tests: StrTable<GasLimitTest>,
}

impl GasTestFramework {
    /// The invariant: the tables are well formed.
    pub open spec fn wf(self) -> bool {
        &&& self.benchmarks.wf()
        &&& self.regression_tests.wf()
        &&& self.limit_tests.wf()
    }

    /// The benchmarks, by operation: maximum, minimum and tolerance.
    pub open spec fn benchmark_map(self) -> Map<Seq<char>, (u64, Option<u64>, u32)> {
        self.benchmarks.map().map_values(
            |b: GasBenchmark| (b.expected_max_gas, b.expected_min_gas, b.tolerance_percentage),
        )
    }

    /// The regression limits, by operation: baseline and percentage.
    pub open spec fn regression_map(self) -> Map<Seq<char>, (u64, u32)> {
        self.regression_tests.map().map_values(
            |t: GasRegressionTest| (t.baseline_gas, t.max_regression_percentage),
        )
    }

    /// The limit tests, by operation: limit and expected outcome.
    pub open spec fn limit_map(self) -> Map<Seq<char>, (u64, bool)> {
        self.limit_tests.map().map_values(|t: GasLimitTest| (t.gas_limit, t.should_succeed))
    }

    /// A framework with no measurements, benchmarks or limits.
    pub fn new(env: &soroban_sdk::Env) -> (r: Self)
        ensures
            r.env == *env,
            r.wf(),
            r.measurements@.len() == 0,
            r.benchmark_map() == Map::<Seq<char>, (u64, Option<u64>, u32)>::empty(),
            r.regression_map() == Map::<Seq<char>, (u64, u32)>::empty(),
            r.limit_map() == Map::<Seq<char>, (u64, bool)>::empty(),
    {
        let r = GasTestFramework {
            env: clone_env(env),
            measurements: Vec::new(),
            benchmarks: StrTable::new(),
            regression_tests: StrTable::new(),
            limit_tests: StrTable::new(),
        };
        assert(r.benchmark_map() =~= Map::<Seq<char>, (u64, Option<u64>, u32)>::empty());
        assert(r.regression_map() =~= Map::<Seq<char>, (u64, u32)>::empty());
        assert(r.limit_map() =~= Map::<Seq<char>, (u64, bool)>::empty());
        r
    }

    /// Registers (or replaces) the benchmark of its operation.
    pub fn register_benchmark(&mut self, benchmark: GasBenchmark)
        requires
            old(self).wf(),
        ensures
            final(self).wf(),
            final(self).benchmark_map() == old(self).benchmark_map().insert(
                benchmark.operation@,
                (benchmark.expected_max_gas, benchmark.expected_min_gas, benchmark.tolerance_percentage),
            ),
            final(self).regression_map() == old(self).regression_map(),
            final(self).limit_map() == old(self).limit_map(),
            final(self).measurements@ == old(self).measurements@,
    {
        let ghost m0 = self.benchmark_map();
        let ghost v = (benchmark.expected_max_gas, benchmark.expected_min_gas, benchmark.tolerance_percentage);
        let ghost k = benchmark.operation@;
        self.benchmarks.insert(benchmark.operation.clone(), benchmark);
        assert(self.benchmark_map() =~= m0.insert(k, v));
    }

    /// Registers (or replaces) the regression limit of its operation.
    pub fn register_regression_test(&mut self, test: GasRegressionTest)
        requires
            old(self).wf(),
        ensures
            final(self).wf(),
            final(self).regression_map() == old(self).regression_map().insert(
                test.operation@,
                (test.baseline_gas, test.max_regression_percentage),
            ),
            final(self).benchmark_map() == old(self).benchmark_map(),
            final(self).limit_map() == old(self).limit_map(),
            final(self).measurements@ == old(self).measurements@,
    {
        let ghost m0 = self.regression_map();
        let ghost v = (test.baseline_gas, test.max_regression_percentage);
        let ghost k = test.operation@;
        self.regression_tests.insert(test.operation.clone(), test);
        assert(self.regression_map() =~= m0.insert(k, v));
    }

    /// Registers (or replaces) the limit test of its operation.
    pub fn register_limit_test(&mut self, test: GasLimitTest)
        requires
            old(self).wf(),
        ensures
            final(self).wf(),
            final(self).limit_map() == old(self).limit_map().insert(
                test.operation@,
                (test.gas_limit, test.should_succeed),
            ),
            final(self).benchmark_map() == old(self).benchmark_map(),
            final(self).regression_map() == old(self).regression_map(),
            final(self).measurements@ == old(self).measurements@,
    {
        let ghost m0 = self.limit_map();
        let ghost v = (test.gas_limit, test.should_succeed);
        let ghost k = test.operation@;
        self.limit_tests.insert(test.operation.clone(), test);
        assert(self.limit_map() =~= m0.insert(k, v));
    }

    /// The gas charged between two ledger sequence numbers (see `gas_between`).
    pub fn gas_between_sequences(initial: u32, last: u32) -> (r: u64)
        ensures
            r == gas_between(initial, last),
    {
        if last > initial {
            ((last - initial) as u64) * GAS_PER_SEQUENCE
        } else {
            GAS_PER_SEQUENCE
        }
    }

    /// Records a measurement of `operation` from the ledger sequence numbers read
    /// before and after it ran and the time read after it.
    pub fn record_measurement(
        &mut self,
        operation: String,
        initial_sequence: u32,
        final_sequence: u32,
        timestamp: u64,
        contract_address: Option<u64>,
    )
        requires
            old(self).wf(),
        ensures
            final(self).wf(),
            views(final(self).measurements@) == views(old(self).measurements@).push(
                MeasurementView {
                    operation: operation@,
                    gas_used: gas_between(initial_sequence, final_sequence),
                    timestamp,
                    contract_address,
                },
            ),
            final(self).benchmarks == old(self).benchmarks,
            final(self).regression_tests == old(self).regression_tests,
            final(self).limit_tests == old(self).limit_tests,
    {
        let gas_used = Self::gas_between_sequences(initial_sequence, final_sequence);
        let ghost before = self.measurements@;
        self.measurements.push(GasMeasurement { operation, gas_used, timestamp, contract_address });
        assert(views(self.measurements@) =~= views(before).push(self.measurements@.last()@));
    }

    /// Runs `f` and records its measurement under `operation`, returning what `f`
    /// returned. The gas comes from the host ledger's sequence numbers read around the
    /// run (see `record_measurement`).
    pub fn measure_gas<F: FnOnce() -> R, R>(
        &mut self,
        operation: String,
        contract_address: Option<u64>,
        f: F,
    ) -> (r: R)
        requires
            old(self).wf(),
            f.requires(()),
        ensures
            final(self).wf(),
            f.ensures((), r),
            views(final(self).measurements@).drop_last() == views(old(self).measurements@),
            final(self).measurements@.len() == old(self).measurements@.len() + 1,
            final(self).measurements@.last().operation@ == operation@,
            final(self).measurements@.last().contract_address == contract_address,
            final(self).measurements@.last().gas_used % GAS_PER_SEQUENCE == 0,
            final(self).measurements@.last().gas_used > 0,
            final(self).benchmarks == old(self).benchmarks,
            final(self).regression_tests == old(self).regression_tests,
            final(self).limit_tests == old(self).limit_tests,
    {
        let initial_sequence = ledger_sequence(&self.env);
        let result = f();
        let final_sequence = ledger_sequence(&self.env);
        let timestamp = ledger_timestamp(&self.env);
        self.record_measurement(operation, initial_sequence, final_sequence, timestamp, contract_address);
        proof {
            let v = views(self.measurements@);
            assert(v.drop_last() =~= views(old(self).measurements@));
            assert(v.last() == self.measurements@.last()@);
            assert(gas_between(initial_sequence, final_sequence) % GAS_PER_SEQUENCE == 0) by (nonlinear_arith)
                requires
                    final_sequence > initial_sequence ==> gas_between(initial_sequence, final_sequence)
                        == (final_sequence - initial_sequence) * GAS_PER_SEQUENCE,
                    final_sequence <= initial_sequence ==> gas_between(initial_sequence, final_sequence)
                        == GAS_PER_SEQUENCE,
                    GAS_PER_SEQUENCE == 1000,
            ;
        }
        result
    }

    /// The last measurement of an operation, if any.
    pub fn get_latest_measurement(&self, operation: &String) -> (r: Option<GasMeasurement>)
        ensures
            match r {
                Some(m) => latest_of(views(self.measurements@), operation@) == Some(m@),
                None => latest_of(views(self.measurements@), operation@) is None,
            },
    {
        let ghost v = views(self.measurements@);
        let mut i: usize = self.measurements.len();
        assert(v.take(i as int) =~= v);
        while i > 0
            invariant
                i <= self.measurements@.len(),
                v == views(self.measurements@),
                latest_of(v, operation@) == latest_of(v.take(i as int), operation@),
            decreases i,
        {
            i = i - 1;
            assert(v.take(i + 1).drop_last() =~= v.take(i as int));
            assert(v.take(i + 1).last() == self.measurements@[i as int]@);
            if str_eq(&self.measurements[i].operation, operation) {
                return Some(self.measurements[i].copy());
            }
        }
        None
    }

    /// The measurements of an operation, in order.
    pub fn get_measurements_for_operation(&self, operation: &String) -> (r: Vec<GasMeasurement>)
        ensures
            views(r@) == of_operation(views(self.measurements@), operation@),
    {
        let ghost v = views(self.measurements@);
        let mut result: Vec<GasMeasurement> = Vec::new();
        let mut i: usize = 0;
        assert(views(result@) =~= of_operation(v.take(0), operation@));
        while i < self.measurements.len()
            invariant
                i <= self.measurements@.len(),
                v == views(self.measurements@),
                views(result@) == of_operation(v.take(i as int), operation@),
            decreases self.measurements@.len() - i,
        {
            assert(v.take(i + 1).drop_last() =~= v.take(i as int));
            assert(v.take(i + 1).last() == self.measurements@[i as int]@);
            if str_eq(&self.measurements[i].operation, operation) {
                let ghost before = result@;
                result.push(self.measurements[i].copy());
                assert(views(result@) =~= views(before).push(self.measurements@[i as int]@));
            }
            i = i + 1;
        }
        assert(v.take(i as int) =~= v);
        result
    }

    /// Checks an operation's last measurement against its benchmark (see
    /// `benchmark_outcome`); the error names what failed.
    pub fn assert_gas_benchmark(&self, operation: &String) -> (r: Result<(), String>)
        requires
            self.wf(),
            self.benchmark_map().dom().contains(operation@) ==> self.benchmark_map()[operation@].0
                * self.benchmark_map()[operation@].2 <= u64::MAX,
        ensures
            match r {
                Ok(()) => benchmark_outcome(
                    if self.benchmark_map().dom().contains(operation@) {
                        Some(self.benchmark_map()[operation@])
                    } else {
                        None
                    },
                    latest_of(views(self.measurements@), operation@),
                ) is Ok,
                Err(e) => benchmark_outcome(
                    if self.benchmark_map().dom().contains(operation@) {
                        Some(self.benchmark_map()[operation@])
                    } else {
                        None
                    },
                    latest_of(views(self.measurements@), operation@),
                ) == Err::<(), Seq<char>>(e@),
            },
    {
        let i = match self.benchmarks.find(operation) {
            Some(i) => i,
            None => {
                return Err(text("no_benchmark_registered"));
            },
        };
        let b = &self.benchmarks.entries[i].1;
        let m = match self.get_latest_measurement(operation) {
            Some(m) => m,
            None => {
                return Err(text("no_gas_measurement"));
            },
        };
        if m.gas_used > b.expected_max_gas {
            return Err(text("gas_exceeded_maximum"));
        }
        match b.expected_min_gas {
            Some(min_gas) => {
                if m.gas_used < min_gas {
                    return Err(text("gas_below_minimum"));
                }
            },
            None => {},
        }
        let expected_gas = b.expected_max_gas;
        let tolerance = (expected_gas * (b.tolerance_percentage as u64)) / 100;
        let deviation = expected_gas - m.gas_used;
        if deviation > tolerance {
            return Err(text("gas_exceeded_tolerance"));
        }
        Ok(())
    }

    /// Checks an operation's last measurement against its regression limit (see
    /// `regression_outcome`); the error names what failed.
    pub fn assert_no_regression(&self, operation: &String) -> (r: Result<(), String>)
        requires
            self.wf(),
            self.regression_map().dom().contains(operation@) ==> {
                let (baseline, pct) = self.regression_map()[operation@];
                baseline * pct <= u64::MAX && baseline + baseline * pct / 100 <= u64::MAX
            },
        ensures
            match r {
                Ok(()) => regression_outcome(
                    if self.regression_map().dom().contains(operation@) {
                        Some(self.regression_map()[operation@])
                    } else {
                        None
                    },
                    latest_of(views(self.measurements@), operation@),
                ) is Ok,
                Err(e) => regression_outcome(
                    if self.regression_map().dom().contains(operation@) {
                        Some(self.regression_map()[operation@])
                    } else {
                        None
                    },
                    latest_of(views(self.measurements@), operation@),
                ) == Err::<(), Seq<char>>(e@),
            },
    {
        let i = match self.regression_tests.find(operation) {
            Some(i) => i,
            None => {
                return Err(text("no_regression_test"));
            },
        };
        let t = &self.regression_tests.entries[i].1;
        let m = match self.get_latest_measurement(operation) {
            Some(m) => m,
            None => {
                return Err(text("no_gas_measurement"));
            },
        };
        let allowed_increase = (t.baseline_gas * (t.max_regression_percentage as u64)) / 100;
        let max_allowed = t.baseline_gas + allowed_increase;
        if m.gas_used > max_allowed {
            return Err(text("gas_regression_detected"));
        }
        Ok(())
    }

    /// Forgets every measurement.
    pub fn clear_measurements(&mut self)
        ensures
            final(self).measurements@.len() == 0,
            final(self).benchmarks == old(self).benchmarks,
            final(self).regression_tests == old(self).regression_tests,
            final(self).limit_tests == old(self).limit_tests,
    {
        self.measurements = Vec::new();
    }
}

/// The benchmarks registered by default: maximum, minimum and tolerance of the
/// ticket and escrow contracts' main operations.
pub open spec fn default_benchmarks() -> Map<Seq<char>, (u64, Option<u64>, u32)> {
    map![
        "ticket_initialize"@ => (50000u64, Some(30000u64), 20u32),
        "ticket_add_tier"@ => (80000u64, Some(50000u64), 20u32),
        "ticket_batch_mint"@ => (150000u64, Some(100000u64), 25u32),
        "ticket_get_price"@ => (30000u64, Some(20000u64), 20u32),
        "escrow_initialize"@ => (45000u64, Some(25000u64), 20u32),
        "escrow_create"@ => (120000u64, Some(80000u64), 20u32),
        "escrow_lock"@ => (60000u64, Some(40000u64), 20u32),
        "escrow_release"@ => (100000u64, Some(70000u64), 20u32)
    ]
}

/// The regression limits registered by default: baseline and percentage.
pub open spec fn default_regressions() -> Map<Seq<char>, (u64, u32)> {
    map![
        "ticket_batch_mint"@ => (150000u64, 10u32),
        "escrow_create"@ => (120000u64, 10u32)
    ]
}

impl GasTestFramework {
    /// Registers a benchmark.
    fn add_benchmark(&mut self, operation: &str, max_gas: u64, min_gas: u64, tolerance: u32)
        requires
            old(self).wf(),
        ensures
            final(self).wf(),
            final(self).benchmark_map() == old(self).benchmark_map().insert(
                operation@,
                (max_gas, Some(min_gas), tolerance),
            ),
            final(self).regression_map() == old(self).regression_map(),
            final(self).limit_map() == old(self).limit_map(),
            final(self).measurements@ == old(self).measurements@,
    {
        self.register_benchmark(
            GasBenchmark {
                operation: text(operation),
                expected_max_gas: max_gas,
                expected_min_gas: Some(min_gas),
                tolerance_percentage: tolerance,
            },
        );
    }

    /// Registers a regression limit.
    fn add_regression(&mut self, operation: &str, baseline: u64, pct: u32)
        requires
            old(self).wf(),
        ensures
            final(self).wf(),
            final(self).regression_map() == old(self).regression_map().insert(operation@, (baseline, pct)),
            final(self).benchmark_map() == old(self).benchmark_map(),
            final(self).limit_map() == old(self).limit_map(),
            final(self).measurements@ == old(self).measurements@,
    {
        self.register_regression_test(
            GasRegressionTest {
                operation: text(operation),
                baseline_gas: baseline,
                max_regression_percentage: pct,
            },
        );
    }

    /// A framework with the default benchmarks and regression limits (see
    /// `default_benchmarks` and `default_regressions`), and no measurements.
    pub fn with_defaults(env: &soroban_sdk::Env) -> (r: Self)
        ensures
            r.wf(),
            r.measurements@.len() == 0,
            r.benchmark_map() == default_benchmarks(),
            r.regression_map() == default_regressions(),
            r.limit_map() == Map::<Seq<char>, (u64, bool)>::empty(),
    {
        let mut f = Self::new(env);
        f.add_benchmark("ticket_initialize", 50000, 30000, 20);
        f.add_benchmark("ticket_add_tier", 80000, 50000, 20);
        f.add_benchmark("ticket_batch_mint", 150000, 100000, 25);
        f.add_benchmark("ticket_get_price", 30000, 20000, 20);
        f.add_benchmark("escrow_initialize", 45000, 25000, 20);
        f.add_benchmark("escrow_create", 120000, 80000, 20);
        f.add_benchmark("escrow_lock", 60000, 40000, 20);
        f.add_benchmark("escrow_release", 100000, 70000, 20);
        f.add_regression("ticket_batch_mint", 150000, 10);
        f.add_regression("escrow_create", 120000, 10);
        assert(f.benchmark_map() =~= default_benchmarks());
        assert(f.regression_map() =~= default_regressions());
        f
    }
}

/// The decimal digit `d`.
pub open spec fn digit(d: nat) -> char {
    (d + 48) as char
}

/// The decimal writing of `n`, without leading zeros.
pub open spec fn dec(n: nat) -> Seq<char>
    decreases n,
{
    if n < 10 {
        seq![digit(n)]
    } else {
        dec(n / 10).push(digit(n % 10))
    }
}

/// The text of a decimal digit.
fn digit_text(d: u64) -> (r: &'static str)
    requires
        d < 10,
    ensures
        r@ == seq![digit(d as nat)],
{
    proof {
        reveal_strlit("0");
        reveal_strlit("1");
        reveal_strlit("2");
        reveal_strlit("3");
        reveal_strlit("4");
        reveal_strlit("5");
        reveal_strlit("6");
        reveal_strlit("7");
        reveal_strlit("8");
        reveal_strlit("9");
    }
    if d == 0 {
        "0"
    } else if d == 1 {
        "1"
    } else if d == 2 {
        "2"
    } else if d == 3 {
        "3"
    } else if d == 4 {
        "4"
    } else if d == 5 {
        "5"
    } else if d == 6 {
        "6"
    } else if d == 7 {
        "7"
    } else if d == 8 {
        "8"
    } else {
        "9"
    }
}

/// Writes an integer in decimal, without leading zeros.
fn decimal(n: u64) -> (r: String)
    ensures
        r@ == dec(n as nat),
    decreases n,
{
    if n < 10 {
        String::from_str(digit_text(n))
    } else {
        let mut s = decimal(n / 10);
        s.append(digit_text(n % 10));
        s
    }
}

/// The texts of a list of strings.
pub open spec fn texts(v: Seq<String>) -> Seq<Seq<char>> {
    v.map_values(|x: String| x@)
}

/// The operations measured, each once, in the order they were first measured.
pub open spec fn distinct_ops(s: Seq<MeasurementView>) -> Seq<Seq<char>>
    decreases s.len(),
{
    if s.len() == 0 {
        Seq::empty()
    } else {
        let p = distinct_ops(s.drop_last());
        if p.contains(s.last().operation) {
            p
        } else {
            p.push(s.last().operation)
        }
    }
}

/// The least gas among measurements (`u64::MAX` for none).
pub open spec fn min_gas(s: Seq<MeasurementView>) -> u64
    decreases s.len(),
{
    if s.len() == 0 {
        u64::MAX
    } else if s.last().gas_used < min_gas(s.drop_last()) {
        s.last().gas_used
    } else {
        min_gas(s.drop_last())
    }
}

/// The most gas among measurements (0 for none).
pub open spec fn max_gas(s: Seq<MeasurementView>) -> u64
    decreases s.len(),
{
    if s.len() == 0 {
        0
    } else if s.last().gas_used > max_gas(s.drop_last()) {
        s.last().gas_used
    } else {
        max_gas(s.drop_last())
    }
}

/// The total gas of measurements.
pub open spec fn total_gas(s: Seq<MeasurementView>) -> nat
    decreases s.len(),
{
    if s.len() == 0 {
        0
    } else {
        total_gas(s.drop_last()) + s.last().gas_used as nat
    }
}

/// The report lines of one operation: its last gas, and with two measurements or
/// more its least, most and average gas.
pub open spec fn op_lines(s: Seq<MeasurementView>, op: Seq<char>) -> Seq<Seq<char>> {
    let m = of_operation(s, op);
    let latest = if m.len() > 0 {
        seq![op + ":latest_gas:"@ + dec(m.last().gas_used as nat)]
    } else {
        Seq::empty()
    };
    let stats = if m.len() > 1 {
        seq![
            op + ":min_gas:"@ + dec(min_gas(m) as nat),
            op + ":max_gas:"@ + dec(max_gas(m) as nat),
            op + ":avg_gas:"@ + dec(total_gas(m) / m.len()),
        ]
    } else {
        Seq::empty()
    };
    latest + stats
}

/// The report lines of a list of operations, in order.
pub open spec fn ops_lines(s: Seq<MeasurementView>, ops: Seq<Seq<char>>) -> Seq<Seq<char>>
    decreases ops.len(),
{
    if ops.len() == 0 {
        Seq::empty()
    } else {
        ops_lines(s, ops.drop_last()) + op_lines(s, ops.last())
    }
}

/// The gas report: a title, the number of measurements, then the lines of each
/// operation in the order they were first measured.
pub open spec fn report_lines(s: Seq<MeasurementView>) -> Seq<Seq<char>> {
    seq!["gas_usage_report"@, "total_measurements:"@ + dec(s.len())] + ops_lines(s, distinct_ops(s))
}

/// The total of a prefix is at most the total.
proof fn lemma_total_prefix(s: Seq<MeasurementView>, k: int)
    requires
        0 <= k <= s.len(),
    ensures
        total_gas(s.take(k)) <= total_gas(s),
    decreases s.len(),
{
    if k < s.len() {
        lemma_total_prefix(s.drop_last(), k);
        assert(s.drop_last().take(k) =~= s.take(k));
    } else {
        assert(s.take(k) =~= s);
    }
}

/// Whether a list of strings holds `x`.
fn texts_contain(v: &Vec<String>, x: &String) -> (r: bool)
    ensures
        r == texts(v@).contains(x@),
{
    let mut i: usize = 0;
    while i < v.len()
        invariant
            i <= v@.len(),
            forall|j: int| 0 <= j < i ==> v@[j]@ != x@,
        decreases v@.len() - i,
    {
        if str_eq(&v[i], x) {
            assert(texts(v@)[i as int] == x@);
            return true;
        }
        i = i + 1;
    }
    assert forall|j: int| 0 <= j < texts(v@).len() implies texts(v@)[j] != x@ by {
        assert(texts(v@)[j] == v@[j]@);
    }
    false
}

/// `text` followed by `tag` and the decimal writing of `n`.
fn labelled(text_: &String, tag: &str, n: u64) -> (r: String)
    ensures
        r@ == text_@ + tag@ + dec(n as nat),
{
    let mut line = text_.clone();
    line.append(tag);
    let d = decimal(n);
    line.append(d.as_str());
    line
}

impl GasTestFramework {
    /// The least, most and total gas of a list of measurements.
    fn gas_stats(ms: &Vec<GasMeasurement>) -> (r: (u64, u64, u64))
        requires
            total_gas(views(ms@)) <= u64::MAX,
        ensures
            r.0 == min_gas(views(ms@)),
            r.1 == max_gas(views(ms@)),
            r.2 == total_gas(views(ms@)),
    {
        let ghost v = views(ms@);
        let mut lo: u64 = u64::MAX;
        let mut hi: u64 = 0;
        let mut total: u64 = 0;
        let mut k: usize = 0;
        assert(v.take(0) =~= Seq::<MeasurementView>::empty());
        while k < ms.len()
            invariant
                k <= ms@.len(),
                v == views(ms@),
                total_gas(v) <= u64::MAX,
                lo == min_gas(v.take(k as int)),
                hi == max_gas(v.take(k as int)),
                total == total_gas(v.take(k as int)),
            decreases ms@.len() - k,
        {
            assert(v.take(k + 1).drop_last() =~= v.take(k as int));
            assert(v.take(k + 1).last() == ms@[k as int]@);
            proof {
                lemma_total_prefix(v, k + 1);
            }
            let g = ms[k].gas_used;
            if g < lo {
                lo = g;
            }
            if g > hi {
                hi = g;
            }
            total = total + g;
            k = k + 1;
        }
        assert(v.take(k as int) =~= v);
        (lo, hi, total)
    }

    /// The gas report (see `report_lines`). Each operation's total gas must fit 64 bits.
    pub fn generate_report(&self) -> (r: Vec<String>)
        requires
            forall|op: Seq<char>| #[trigger] total_gas(of_operation(views(self.measurements@), op)) <= u64::MAX,
        ensures
            texts(r@) == report_lines(views(self.measurements@)),
    {
        let ghost v = views(self.measurements@);
        let mut report: Vec<String> = Vec::new();
        report.push(text("gas_usage_report"));
        report.push(labelled(&text("total_measurements:"), "", self.measurements.len() as u64));
        proof {
            let h: Seq<Seq<char>> = seq!["gas_usage_report"@, "total_measurements:"@ + dec(v.len())];
            assert(report@[1]@ =~= "total_measurements:"@ + ""@ + dec(v.len()));
            assert(""@.len() == 0) by {
                reveal_strlit("");
            }
            assert("total_measurements:"@ + ""@ =~= "total_measurements:"@);
            assert(texts(report@) =~= h);
        }
        let mut operations: Vec<String> = Vec::new();
        let mut i: usize = 0;
        assert(texts(operations@) =~= distinct_ops(v.take(0)));
        while i < self.measurements.len()
            invariant
                i <= self.measurements@.len(),
                v == views(self.measurements@),
                texts(operations@) == distinct_ops(v.take(i as int)),
            decreases self.measurements@.len() - i,
        {
            assert(v.take(i + 1).drop_last() =~= v.take(i as int));
            assert(v.take(i + 1).last() == self.measurements@[i as int]@);
            let op = &self.measurements[i].operation;
            if !texts_contain(&operations, op) {
                let ghost before = operations@;
                operations.push(op.clone());
                assert(texts(operations@) =~= texts(before).push(op@));
            }
            i = i + 1;
        }
        assert(v.take(i as int) =~= v);
        let ghost ops = texts(operations@);
        let ghost head = texts(report@);
        let mut j: usize = 0;
        assert(ops.take(0) =~= Seq::<Seq<char>>::empty());
        assert(head + ops_lines(v, ops.take(0)) =~= head);
        while j < operations.len()
            invariant
                j <= operations@.len(),
                v == views(self.measurements@),
                ops == texts(operations@),
                forall|op: Seq<char>| #[trigger] total_gas(of_operation(v, op)) <= u64::MAX,
                texts(report@) == head + ops_lines(v, ops.take(j as int)),
            decreases operations@.len() - j,
        {
            let op = &operations[j];
            assert(ops.take(j + 1).drop_last() =~= ops.take(j as int));
            assert(ops.take(j + 1).last() == op@);
            let ms = self.get_measurements_for_operation(op);
            let ghost m = views(ms@);
            let ghost before = texts(report@);
            if ms.len() > 0 {
                let last = ms.len() - 1;
                assert(m.last() == ms@[last as int]@);
                report.push(labelled(op, ":latest_gas:", ms[last].gas_used));
            }
            let ghost mid = texts(report@);
            if ms.len() > 1 {
                assert(total_gas(of_operation(v, op@)) <= u64::MAX);
                let (lo, hi, total) = Self::gas_stats(&ms);
                let avg = total / (ms.len() as u64);
                report.push(labelled(op, ":min_gas:", lo));
                report.push(labelled(op, ":max_gas:", hi));
                report.push(labelled(op, ":avg_gas:", avg));
            }
            proof {
                let l = op_lines(v, op@);
                if m.len() > 1 {
                    assert(texts(report@) =~= before + l);
                } else if m.len() > 0 {
                    assert(texts(report@) =~= before + l);
                } else {
                    assert(texts(report@) =~= before + l);
                }
                assert(ops_lines(v, ops.take(j + 1)) == ops_lines(v, ops.take(j as int)) + l);
                assert(head + ops_lines(v, ops.take(j as int)) + l =~= head + (ops_lines(v, ops.take(j as int)) + l));
            }
            j = j + 1;
        }
        assert(ops.take(j as int) =~= ops);
        assert(texts(report@) =~= report_lines(v));
        report
    }
}

} // verus!
