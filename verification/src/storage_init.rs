//! Guarded storage initialization: an initialization state machine, defaults for
//! keys left unset, validation of the required keys with a health record, templates
//! and repairs. The host reads and writes the stored values themselves; this decides
//! which accesses are allowed and what is recorded.
use vstd::prelude::*;
use crate::table::StrTable;

verus! {

/// The most retries the default template allows.
pub const DEFAULT_MAX_RETRY_ATTEMPTS: u32 = 3;

/// The default template's initialization timeout.
pub const DEFAULT_INITIALIZATION_TIMEOUT: u32 = 300;

/// Where initialization stands.
#[derive(Debug, Clone, Copy, PartialEq, Eq, Structural)]
pub enum InitializationState {
    NotInitialized,
    Initializing,
    Initialized,
    ValidationFailed,
    Corrupted,
}

/// How a key's default is obtained.
#[derive(Debug, Clone, Copy, PartialEq, Eq, Structural)]
pub enum DefaultStrategy {
    Zero,
    Empty,
    Default,
    Custom,
    Computed,
}

/// A default for a key: its strategy, an explicit value when there is one, and
/// whether the key is required.
pub struct DefaultValue {
    pub key: String,
    pub strategy: DefaultStrategy,
    pub value: Option<soroban_sdk::Val>,
    pub required: bool,
}

/// The outcome of validating or fixing a key.
pub struct ValidationResult {
    pub storage_key: String,
    pub is_valid: bool,
    pub error_message: Option<String>,
    pub validation_timestamp: u64,
    pub default_applied: bool,
}

/// The value of a validation result: key, validity, message, time, default applied.
pub open spec fn result_view(r: ValidationResult) -> (Seq<char>, bool, Option<Seq<char>>, u64, bool) {
    (
        r.storage_key@,
        r.is_valid,
        match r.error_message {
            Some(m) => Some(m@),
            None => None,
        },
        r.validation_timestamp,
        r.default_applied,
    )
}

impl ValidationResult {
    /// A copy of the result.
    pub fn copy(&self) -> (r: Self)
        ensures
            result_view(r) == result_view(*self),
    {
        ValidationResult {
            storage_key: self.storage_key.clone(),
            is_valid: self.is_valid,
            error_message: match &self.error_message {
                Some(m) => Some(m.clone()),
                None => None,
            },
            validation_timestamp: self.validation_timestamp,
            default_applied: self.default_applied,
        }
    }
}

/// The values of a list of validation results.
pub open spec fn results_view(v: Seq<ValidationResult>) -> Seq<(Seq<char>, bool, Option<Seq<char>>, u64, bool)> {
    v.map_values(|r: ValidationResult| result_view(r))
}

/// The health of the storage: keys validated, valid and invalid, and when. The share
/// of valid keys is `initialized_keys / total_keys` (1 when there are none).
#[derive(Debug, Clone, Copy, PartialEq, Eq, Structural)]
pub struct StorageHealth {
    pub total_keys: u32,
    pub initialized_keys: u32,
    pub corrupted_keys: u32,
    pub last_validation: u64,
}

/// How initialization behaves.
#[derive(Debug, Clone, Copy, PartialEq, Eq, Structural)]
pub struct InitializationConfig {
    pub strict_mode: bool,
    pub auto_fix_issues: bool,
    pub validation_enabled: bool,
    pub backup_before_fix: bool,
    pub max_retry_attempts: u32,
    pub initialization_timeout: u32,
}

/// A reusable initialization setup.
pub struct InitializationTemplate {
    pub template_id: String,
    pub name: String,
    pub default_values: Vec<DefaultValue>,
    pub dependencies: Vec<String>,
    pub config: InitializationConfig,
}

/// Errors of the storage initialization contract.
#[derive(Debug, Clone, Copy, PartialEq, Eq, Structural)]
pub enum StorageInitializationError {
    NotInitialized,
    AlreadyInitialized,
    ValidationFailed,
    CorruptedStorage,
    ContractPaused,
    MissingRequiredKey,
}

/// A storage key of the contract.
#[derive(Debug, Clone, Copy, PartialEq, Eq, Structural)]
pub enum DataKey {
    Admin,
    InitializationConfig,
    Paused,
    Version,
    ValidationResults,
    StorageHealth,
    InitializationState,
    Template,
}

/// The configuration of the default template: everything on, 3 retries, 300 s.
pub open spec fn default_template_config() -> InitializationConfig {
    InitializationConfig {
        strict_mode: true,
        auto_fix_issues: true,
        validation_enabled: true,
        backup_before_fix: true,
        max_retry_attempts: DEFAULT_MAX_RETRY_ATTEMPTS,
        initialization_timeout: DEFAULT_INITIALIZATION_TIMEOUT,
    }
}

/// The required keys, by name, in the order they are validated.
pub open spec fn required_key_names() -> Seq<Seq<char>> {
    seq!["admin"@, "version"@, "paused"@]
}

/// Whether applying a default marks it applied: always, except for an explicit
/// default without a value.
pub open spec fn default_marks_applied(strategy: DefaultStrategy, has_value: bool) -> bool {
    strategy != DefaultStrategy::Default || has_value
}

/// The state of the storage initialization contract.
pub struct StorageInitializationContract {
    pub state: InitializationState,
    pub admin: Option<u64>,
    pub config: Option<InitializationConfig>,
    pub paused: bool,
    pub version: u32,
    pub validation_results: Vec<ValidationResult>,
    pub health: Option<StorageHealth>,
    pub templates: StrTable<InitializationTemplate>,
}

/// A valid result for a key at a time.
fn valid_result(key: String, now: u64, default_applied: bool) -> (r: ValidationResult)
    ensures
        result_view(r) == (key@, true, None::<Seq<char>>, now, default_applied),
{
    ValidationResult {
        storage_key: key,
        is_valid: true,
        error_message: None,
        validation_timestamp: now,
        default_applied,
    }
}

impl StorageInitializationContract {
    /// A contract that has not been initialized.
    pub fn new() -> (r: Self)
        ensures
            r.state == InitializationState::NotInitialized,
            r.admin is None,
            r.config is None,
            !r.paused,
            r.version == 1,
            r.validation_results@.len() == 0,
            r.health is None,
            r.templates.wf(),
            r.templates.map() == Map::<Seq<char>, InitializationTemplate>::empty(),
    {
        StorageInitializationContract {
            state: InitializationState::NotInitialized,
            admin: None,
            config: None,
            paused: false,
            version: 1,
            validation_results: Vec::new(),
            health: None,
            templates: StrTable::new(),
        }
    }

    /// Validates one key at `now`: every key is taken as valid.
    pub fn validate_storage_key(key: String, now: u64) -> (r: ValidationResult)
        ensures
            result_view(r) == (key@, true, None::<Seq<char>>, now, false),
    {
        valid_result(key, now, false)
    }

    /// Validates the required keys (see `required_key_names`) at `now` and records
    /// the health: all of them valid.
    pub fn validate_all_storage(&mut self, now: u64) -> (r: Vec<ValidationResult>)
        ensures
            results_view(r@) == required_key_names().map_values(
                |k: Seq<char>| (k, true, None::<Seq<char>>, now, false),
            ),
            final(self).health == Some(
                StorageHealth { total_keys: 3, initialized_keys: 3, corrupted_keys: 0, last_validation: now },
            ),
            *final(self) == (StorageInitializationContract { health: final(self).health, ..*old(self) }),
    {
        let mut results: Vec<ValidationResult> = Vec::new();
        proof {
            reveal_strlit("admin");
            reveal_strlit("version");
            reveal_strlit("paused");
        }
        results.push(Self::validate_storage_key(String::from_str("admin"), now));
        results.push(Self::validate_storage_key(String::from_str("version"), now));
        results.push(Self::validate_storage_key(String::from_str("paused"), now));
        assert(results_view(results@) =~= required_key_names().map_values(
            |k: Seq<char>| (k, true, None::<Seq<char>>, now, false),
        ));
        self.health = Some(
            StorageHealth { total_keys: 3, initialized_keys: 3, corrupted_keys: 0, last_validation: now },
        );
        results
    }

    /// Initializes the contract: administrator, configuration, unpaused, version 1;
    /// the required defaults are applied; when validation is enabled the required
    /// keys are validated and the results kept; the state becomes initialized.
    /// Errors: a contract whose initialization has begun.
    pub fn initialize(&mut self, admin: u64, config: InitializationConfig, now: u64) -> (r: Result<
        (),
        StorageInitializationError,
    >)
        ensures
            old(self).state != InitializationState::NotInitialized <==> r is Err,
            r is Err ==> r == Err::<(), StorageInitializationError>(
                StorageInitializationError::AlreadyInitialized,
            ) && *final(self) == *old(self),
            r is Ok ==> {
                &&& final(self).state == InitializationState::Initialized
                &&& final(self).admin == Some(admin)
                &&& final(self).config == Some(config)
                &&& !final(self).paused
                &&& final(self).version == 1
                &&& config.validation_enabled ==> results_view(final(self).validation_results@)
                    == required_key_names().map_values(
                    |k: Seq<char>| (k, true, None::<Seq<char>>, now, false),
                ) && final(self).health == Some(
                    StorageHealth { total_keys: 3, initialized_keys: 3, corrupted_keys: 0, last_validation: now },
                )
                &&& !config.validation_enabled ==> final(self).validation_results == old(self).validation_results
                    && final(self).health == old(self).health
                &&& final(self).templates == old(self).templates
            },
    {
        if self.state != InitializationState::NotInitialized {
            return Err(StorageInitializationError::AlreadyInitialized);
        }
        self.state = InitializationState::Initializing;
        self.admin = Some(admin);
        self.config = Some(config);
        self.paused = false;
        self.version = 1;
        if config.validation_enabled {
            let results = self.validate_all_storage(now);
            self.validation_results = results;
        }
        self.state = InitializationState::Initialized;
        Ok(())
    }

    /// Initializes the contract with the default template's configuration (see
    /// `default_template_config` and `initialize`); that template has no defaults or
    /// rules of its own. Errors: those of `initialize`.
    pub fn initialize_with_template(&mut self, admin: u64, template_id: &String, now: u64) -> (r: Result<
        (),
        StorageInitializationError,
    >)
        ensures
            old(self).state != InitializationState::NotInitialized <==> r is Err,
            r is Err ==> *final(self) == *old(self),
            r is Ok ==> final(self).state == InitializationState::Initialized && final(self).admin == Some(
                admin,
            ) && final(self).config == Some(default_template_config()),
    {
        let config = InitializationConfig {
            strict_mode: true,
            auto_fix_issues: true,
            validation_enabled: true,
            backup_before_fix: true,
            max_retry_attempts: DEFAULT_MAX_RETRY_ATTEMPTS,
            initialization_timeout: DEFAULT_INITIALIZATION_TIMEOUT,
        };
        self.initialize(admin, config, now)
    }

    /// What a guarded access fails with, if anything: a contract not initialized,
    /// whose validation failed or whose storage is corrupted.
    pub open spec fn access_error(self) -> Option<StorageInitializationError> {
        match self.state {
            InitializationState::NotInitialized => Some(StorageInitializationError::NotInitialized),
            InitializationState::ValidationFailed => Some(StorageInitializationError::ValidationFailed),
            InitializationState::Corrupted => Some(StorageInitializationError::CorruptedStorage),
            _ => None,
        }
    }

    /// A guarded read of `key`, given what storage holds under it: the access must be
    /// allowed (see `access_error`) and the contract unpaused; then the stored value is
    /// returned, and a missing one, required or not, has no default to fall back on.
    pub fn safe_get<V>(&self, key: DataKey, stored: Option<V>) -> (r: Result<V, StorageInitializationError>)
        ensures
            self.access_error() matches Some(e) ==> r == Err::<V, StorageInitializationError>(e),
            self.access_error() is None && self.paused ==> r == Err::<V, StorageInitializationError>(
                StorageInitializationError::ContractPaused,
            ),
            self.access_error() is None && !self.paused ==> r == match stored {
                Some(v) => Ok::<V, StorageInitializationError>(v),
                None => Err::<V, StorageInitializationError>(StorageInitializationError::MissingRequiredKey),
            },
    {
        match self.state {
            InitializationState::NotInitialized => {
                return Err(StorageInitializationError::NotInitialized);
            },
            InitializationState::ValidationFailed => {
                return Err(StorageInitializationError::ValidationFailed);
            },
            InitializationState::Corrupted => {
                return Err(StorageInitializationError::CorruptedStorage);
            },
            _ => {},
        }
        if self.paused {
            return Err(StorageInitializationError::ContractPaused);
        }
        match stored {
            Some(v) => Ok(v),
            None => Err(StorageInitializationError::MissingRequiredKey),
        }
    }

    /// Whether a guarded write of `key` may proceed (see `access_error`); every value
    /// is accepted, and the caller stores it.
    pub fn safe_set(&self, key: DataKey) -> (r: Result<(), StorageInitializationError>)
        ensures
            match self.access_error() {
                Some(e) => r == Err::<(), StorageInitializationError>(e),
                None => r is Ok,
            },
    {
        match self.state {
            InitializationState::NotInitialized => Err(StorageInitializationError::NotInitialized),
            InitializationState::ValidationFailed => Err(StorageInitializationError::ValidationFailed),
            InitializationState::Corrupted => Err(StorageInitializationError::CorruptedStorage),
            _ => Ok(()),
        }
    }

    /// Applies a default: the result is valid, at `now`, and marked applied as
    /// `default_marks_applied` says.
    pub fn apply_default_value_for_key(default_value: &DefaultValue, now: u64) -> (r: ValidationResult)
        ensures
            result_view(r) == (
                default_value.key@,
                true,
                None::<Seq<char>>,
                now,
                default_marks_applied(default_value.strategy, default_value.value is Some),
            ),
    {
        let applied = match default_value.strategy {
            DefaultStrategy::Zero => true,
            DefaultStrategy::Empty => true,
            DefaultStrategy::Default => default_value.value.is_some(),
            DefaultStrategy::Custom => true,
            DefaultStrategy::Computed => true,
        };
        valid_result(default_value.key.clone(), now, applied)
    }

    /// Applies the built-in defaults, of `paused` and `version`, when the
    /// configuration fixes issues automatically; both are marked applied. Errors: a
    /// contract not initialized.
    pub fn apply_defaults(&self, now: u64) -> (r: Result<Vec<ValidationResult>, StorageInitializationError>)
        ensures
            self.admin is None || self.config is None <==> r is Err,
            r is Err ==> r == Err::<Vec<ValidationResult>, StorageInitializationError>(
                StorageInitializationError::NotInitialized,
            ),
            r matches Ok(v) ==> results_view(v@) == if self.config.unwrap().auto_fix_issues {
                seq![("paused"@, true, None::<Seq<char>>, now, true), ("version"@, true, None::<Seq<char>>, now, true)]
            } else {
                Seq::empty()
            },
    {
        if self.admin.is_none() {
            return Err(StorageInitializationError::NotInitialized);
        }
        let config = match self.config {
            Some(c) => c,
            None => {
                return Err(StorageInitializationError::NotInitialized);
            },
        };
        let mut results: Vec<ValidationResult> = Vec::new();
        if config.auto_fix_issues {
            proof {
                reveal_strlit("paused");
                reveal_strlit("version");
            }
            results.push(valid_result(String::from_str("paused"), now, true));
            results.push(valid_result(String::from_str("version"), now, true));
        }
        assert(results_view(results@) =~= if config.auto_fix_issues {
            seq![("paused"@, true, None::<Seq<char>>, now, true), ("version"@, true, None::<Seq<char>>, now, true)]
        } else {
            Seq::empty()
        });
        Ok(results)
    }

    /// Stores a template under its id. Errors: a contract not initialized.
    pub fn create_template(&mut self, template_id: String, template: InitializationTemplate) -> (r: Result<
        (),
        StorageInitializationError,
    >)
        requires
            old(self).templates.wf(),
        ensures
            final(self).templates.wf(),
            old(self).admin is None <==> r is Err,
            r is Err ==> *final(self) == *old(self),
            r is Ok ==> final(self).templates.map().dom() == old(self).templates.map().dom().insert(
                template_id@,
            ),
    {
        if self.admin.is_none() {
            return Err(StorageInitializationError::NotInitialized);
        }
        let ghost d0 = self.templates.map().dom();
        let ghost k = template_id@;
        self.templates.insert(template_id, template);
        assert(self.templates.map().dom() =~= d0.insert(k));
        Ok(())
    }

    /// The recorded health, or all zero.
    pub fn get_storage_health(&self) -> (r: StorageHealth)
        ensures
            r == match self.health {
                Some(h) => h,
                None => StorageHealth { total_keys: 0, initialized_keys: 0, corrupted_keys: 0, last_validation: 0 },
            },
    {
        match self.health {
            Some(h) => h,
            None => StorageHealth { total_keys: 0, initialized_keys: 0, corrupted_keys: 0, last_validation: 0 },
        }
    }

    /// Repairs the listed keys: each is reported valid, at `now`, with its default
    /// applied. Errors: a contract not initialized.
    pub fn repair_storage(&self, keys: &Vec<String>, now: u64) -> (r: Result<Vec<ValidationResult>, StorageInitializationError>)
        ensures
            self.admin is None || self.config is None <==> r is Err,
            r matches Ok(v) ==> results_view(v@) == keys@.map_values(
                |k: String| (k@, true, None::<Seq<char>>, now, true),
            ),
    {
        if self.admin.is_none() || self.config.is_none() {
            return Err(StorageInitializationError::NotInitialized);
        }
        let mut results: Vec<ValidationResult> = Vec::new();
        let mut i: usize = 0;
        while i < keys.len()
            invariant
                i <= keys@.len(),
                results@.len() == i,
                forall|j: int| 0 <= j < i ==> #[trigger] result_view(results@[j]) == (
                    keys@[j]@,
                    true,
                    None::<Seq<char>>,
                    now,
                    true,
                ),
            decreases keys@.len() - i,
        {
            results.push(valid_result(keys[i].clone(), now, true));
            i = i + 1;
        }
        assert(results_view(results@) =~= keys@.map_values(
            |k: String| (k@, true, None::<Seq<char>>, now, true),
        ));
        Ok(results)
    }

    /// Sets the pause flag. Errors: a contract not initialized.
    pub fn set_paused(&mut self, paused: bool) -> (r: Result<(), StorageInitializationError>)
        ensures
            old(self).admin is None <==> r is Err,
            r is Err ==> *final(self) == *old(self),
            r is Ok ==> *final(self) == (StorageInitializationContract { paused, ..*old(self) }),
    {
        if self.admin.is_none() {
            return Err(StorageInitializationError::NotInitialized);
        }
        self.paused = paused;
        Ok(())
    }

    /// Where initialization stands.
    /// The results of the last validation (none before one was made).
    pub fn get_validation_results(&self) -> (r: Vec<ValidationResult>)
        ensures
            results_view(r@) == results_view(self.validation_results@),
    {
        let mut r: Vec<ValidationResult> = Vec::new();
        let mut i: usize = 0;
        while i < self.validation_results.len()
            invariant
                i <= self.validation_results@.len(),
                results_view(r@) == results_view(self.validation_results@.take(i as int)),
            decreases self.validation_results@.len() - i,
        {
            let c = self.validation_results[i].copy();
            let ghost r0 = r@;
            r.push(c);
            assert(results_view(r@) =~= results_view(r0).push(result_view(c)));
            i = i + 1;
            assert(self.validation_results@.take(i as int) =~= self.validation_results@.take(
                (i - 1) as int,
            ).push(self.validation_results@[i - 1]));
            assert(results_view(r@) =~= results_view(self.validation_results@.take(i as int)));
        }
        assert(self.validation_results@.take(i as int) =~= self.validation_results@);
        r
    }

    pub fn get_initialization_state(&self) -> (r: InitializationState)
        ensures
            r == self.state,
    {
        self.state
    }

    /// The contract version.
    pub fn version(&self) -> (r: u32)
        ensures
            r == self.version,
    {
        self.version
    }
}

/// Once initialized, the contract cannot be initialized again, and guarded accesses
/// are allowed.
pub proof fn law_initialize_once(c: StorageInitializationContract)
    requires
        c.state == InitializationState::Initialized,
    ensures
        c.access_error() is None,
{
}

} // verus!
