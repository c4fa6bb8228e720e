//! The core service contracts: role-based access control, and storage configuration
//! with its maintenance metrics. Authorization is the host's; the caller's identity is
//! handed in, and on any error an operation leaves the state as it was.
use vstd::prelude::*;
use crate::table::{Table, StrTable};

verus! {

/// Role policy settings.
#[derive(Debug, Clone, Copy, PartialEq, Eq, Structural)]
pub struct RoleConfig {
    pub max_roles_per_user: u32,
    pub require_admin_approval: bool,
    pub role_expiry_enabled: bool,
    pub default_role_duration: u64,
}

impl Default for RoleConfig {
    /// At most 5 roles a user, admin approval required, no expiry, 30-day roles.
    fn default() -> (r: Self)
        ensures
            r == (RoleConfig {
                max_roles_per_user: 5,
                require_admin_approval: true,
                role_expiry_enabled: false,
                default_role_duration: 2592000,
            }),
    {
        RoleConfig {
            max_roles_per_user: 5,
            require_admin_approval: true,
            role_expiry_enabled: false,
            default_role_duration: 86400 * 30,
        }
    }
}

/// A role held by an account: when and by whom it was granted.
#[derive(Debug, Clone, Copy, PartialEq, Eq, Structural)]
pub struct RoleGrant {
    pub granted_at: u64,
    pub granted_by: u64,
}

/// Errors of the access-control contract.
#[derive(Debug, Clone, Copy, PartialEq, Eq, Structural)]
pub enum AccessControlError {
    NotInitialized,
    AlreadyInitialized,
    InvalidAddress,
    RoleNotFound,
    InsufficientPermissions,
    MaxRolesExceeded,
    RoleExpired,
    Unauthorized,
}

/// The name of the administrator role.
pub open spec fn admin_role() -> Seq<char> {
    "ADMIN"@
}

/// The access-control contract.
pub struct AccessControlContract {
    pub admin: Option<u64>,
    pub config: Option<RoleConfig>,
    pub version: u32,
    /// The holders of each role.
    pub roles: StrTable<Table<RoleGrant>>,
}

impl AccessControlContract {
    /// The grant of `role` to `user`, if any.
    pub open spec fn grant_of(self, role: Seq<char>, user: u64) -> Option<RoleGrant> {
        if self.roles.map().dom().contains(role) && self.roles.map()[role].map().dom().contains(user) {
            Some(self.roles.map()[role].map()[user])
        } else {
            None
        }
    }

    /// The invariant: the tables, and the tables inside them, are well formed.
    pub open spec fn wf(self) -> bool {
        &&& self.roles.wf()
        &&& forall|k: Seq<char>| #[trigger] self.roles.map().dom().contains(k) ==> self.roles.map()[k].wf()
    }

    /// A contract that has not been initialized.
    pub fn new() -> (r: Self)
        ensures
            r.wf(),
            r.admin is None,
            r.config is None,
            r.version == 1,
            r.roles.map() == Map::<Seq<char>, Table<RoleGrant>>::empty(),
            forall|role: Seq<char>, u: u64| #[trigger] r.grant_of(role, u) is None,
    {
        AccessControlContract { admin: None, config: None, version: 1, roles: StrTable::new() }
    }

    /// Records `grant` of `role` to `user`.
    fn put_grant(&mut self, role: String, user: u64, grant: RoleGrant)
        requires
            old(self).wf(),
        ensures
            final(self).wf(),
            final(self).grant_of(role@, user) == Some(grant),
            forall|r2: Seq<char>, u2: u64|
                (r2 != role@ || u2 != user) ==> #[trigger] final(self).grant_of(r2, u2) == old(self).grant_of(
                    r2,
                    u2,
                ),
            *final(self) == (AccessControlContract { roles: final(self).roles, ..*old(self) }),
    {
        let ghost o = *self;
        let ghost k = role@;
        match self.roles.find(&role) {
            Some(i) => {
                let mut inner = self.roles.replace_at(i, Table::new());
                inner.insert(user, grant);
                self.roles.set_at(i, inner);
            },
            None => {
                let mut inner: Table<RoleGrant> = Table::new();
                inner.insert(user, grant);
                self.roles.push_new(role, inner);
            },
        }
        assert forall|kk: Seq<char>| #[trigger] self.roles.map().dom().contains(kk) implies self.roles.map()[kk].wf() by {
            if kk != k {
                assert(o.roles.map()[kk] == self.roles.map()[kk]);
            }
        }
        assert forall|r2: Seq<char>, u2: u64| (r2 != k || u2 != user) implies #[trigger] self.grant_of(r2, u2)
            == o.grant_of(r2, u2) by {
            if r2 != k {
                assert(o.roles.map().dom().contains(r2) == self.roles.map().dom().contains(r2));
                if self.roles.map().dom().contains(r2) {
                    assert(o.roles.map()[r2] == self.roles.map()[r2]);
                }
            }
        }
    }

    /// Initializes the contract and grants the administrator role to `admin`. Errors:
    /// a contract already initialized, then the zero account.
    pub fn initialize(&mut self, admin: u64, config: RoleConfig, now: u64) -> (r: Result<
        (),
        AccessControlError,
    >)
        requires
            old(self).wf(),
        ensures
            final(self).wf(),
            old(self).admin is Some ==> r == Err::<(), AccessControlError>(
                AccessControlError::AlreadyInitialized,
            ),
            old(self).admin is None && admin == 0 ==> r == Err::<(), AccessControlError>(
                AccessControlError::InvalidAddress,
            ),
            old(self).admin is None && admin != 0 ==> r is Ok,
            r is Err ==> *final(self) == *old(self),
            r is Ok ==> {
                &&& old(self).admin is None && admin != 0
                &&& final(self).admin == Some(admin)
                &&& final(self).config == Some(config)
                &&& final(self).version == 1
                &&& final(self).grant_of(admin_role(), admin) == Some(
                    RoleGrant { granted_at: now, granted_by: admin },
                )
            },
    {
        if self.admin.is_some() {
            return Err(AccessControlError::AlreadyInitialized);
        }
        if admin == 0 {
            return Err(AccessControlError::InvalidAddress);
        }
        self.admin = Some(admin);
        self.config = Some(config);
        self.version = 1;
        let role = String::from_str("ADMIN");
        proof {
            reveal_strlit("ADMIN");
        }
        self.put_grant(role, admin, RoleGrant { granted_at: now, granted_by: admin });
        Ok(())
    }

    /// Checks that `caller` is the administrator.
    pub open spec fn admin_error(self, caller: u64) -> Option<AccessControlError> {
        match self.admin {
            None => Some(AccessControlError::NotInitialized),
            Some(a) => if a != caller {
                Some(AccessControlError::Unauthorized)
            } else {
                None
            },
        }
    }

    /// Grants `role` to `user` on behalf of the administrator. Errors: see
    /// `admin_error`, then the zero account.
    pub fn grant_role(&mut self, caller: u64, user: u64, role: String, now: u64) -> (r: Result<
        (),
        AccessControlError,
    >)
        requires
            old(self).wf(),
        ensures
            final(self).wf(),
            old(self).admin_error(caller) matches Some(e) ==> r == Err::<(), AccessControlError>(e),
            old(self).admin_error(caller) is None && user == 0 ==> r == Err::<(), AccessControlError>(
                AccessControlError::InvalidAddress,
            ),
            old(self).admin_error(caller) is None && user != 0 ==> r is Ok,
            r is Err ==> *final(self) == *old(self),
            r is Ok ==> {
                &&& old(self).admin_error(caller) is None && user != 0
                &&& final(self).grant_of(role@, user) == Some(
                    RoleGrant { granted_at: now, granted_by: caller },
                )
                &&& forall|r2: Seq<char>, u2: u64|
                    (r2 != role@ || u2 != user) ==> #[trigger] final(self).grant_of(r2, u2) == old(
                        self,
                    ).grant_of(r2, u2)
            },
    {
        match self.admin {
            None => {
                return Err(AccessControlError::NotInitialized);
            },
            Some(a) => {
                if a != caller {
                    return Err(AccessControlError::Unauthorized);
                }
            },
        }
        if user == 0 {
            return Err(AccessControlError::InvalidAddress);
        }
        self.put_grant(role, user, RoleGrant { granted_at: now, granted_by: caller });
        Ok(())
    }

    /// Revokes `role` from `user` on behalf of the administrator. Errors: see
    /// `admin_error`, then the zero account, then a role not held.
    pub fn revoke_role(&mut self, caller: u64, user: u64, role: &String) -> (r: Result<
        (),
        AccessControlError,
    >)
        requires
            old(self).wf(),
        ensures
            final(self).wf(),
            old(self).admin_error(caller) matches Some(e) ==> r == Err::<(), AccessControlError>(e),
            old(self).admin_error(caller) is None && user == 0 ==> r == Err::<(), AccessControlError>(
                AccessControlError::InvalidAddress,
            ),
            old(self).admin_error(caller) is None && user != 0 && old(self).grant_of(role@, user) is None
                ==> r == Err::<(), AccessControlError>(AccessControlError::RoleNotFound),
            old(self).admin_error(caller) is None && user != 0 && old(self).grant_of(role@, user) is Some
                ==> r is Ok,
            r is Err ==> *final(self) == *old(self),
            r is Ok ==> {
                &&& old(self).grant_of(role@, user) is Some
                &&& final(self).grant_of(role@, user) is None
                &&& forall|r2: Seq<char>, u2: u64|
                    (r2 != role@ || u2 != user) ==> #[trigger] final(self).grant_of(r2, u2) == old(
                        self,
                    ).grant_of(r2, u2)
            },
    {
        match self.admin {
            None => {
                return Err(AccessControlError::NotInitialized);
            },
            Some(a) => {
                if a != caller {
                    return Err(AccessControlError::Unauthorized);
                }
            },
        }
        if user == 0 {
            return Err(AccessControlError::InvalidAddress);
        }
        let i = match self.roles.find(role) {
            Some(i) => i,
            None => {
                return Err(AccessControlError::RoleNotFound);
            },
        };
        assert(self.roles.map()[role@] == self.roles.entries@[i as int].1);
        if !self.roles.entries[i].1.contains_key(user) {
            return Err(AccessControlError::RoleNotFound);
        }
        let ghost o = *self;
        let ghost k = role@;
        let mut inner = self.roles.replace_at(i, Table::new());
        inner.remove(user);
        self.roles.set_at(i, inner);
        assert forall|kk: Seq<char>| #[trigger] self.roles.map().dom().contains(kk) implies self.roles.map()[kk].wf() by {
            if kk != k {
                assert(o.roles.map()[kk] == self.roles.map()[kk]);
            }
        }
        assert forall|r2: Seq<char>, u2: u64| (r2 != k || u2 != user) implies #[trigger] self.grant_of(r2, u2)
            == o.grant_of(r2, u2) by {
            if r2 != k {
                assert(o.roles.map().dom().contains(r2) == self.roles.map().dom().contains(r2));
                if self.roles.map().dom().contains(r2) {
                    assert(o.roles.map()[r2] == self.roles.map()[r2]);
                }
            }
        }
        Ok(())
    }

    /// Whether `user` holds `role`. Errors: the zero account.
    pub fn has_role(&self, user: u64, role: &String) -> (r: Result<bool, AccessControlError>)
        requires
            self.wf(),
        ensures
            user == 0 <==> r is Err,
            r is Err ==> r == Err::<bool, AccessControlError>(AccessControlError::InvalidAddress),
            r matches Ok(b) ==> b == self.grant_of(role@, user) is Some,
    {
        if user == 0 {
            return Err(AccessControlError::InvalidAddress);
        }
        match self.roles.find(role) {
            Some(i) => {
                assert(self.roles.map()[role@] == self.roles.entries@[i as int].1);
                Ok(self.roles.entries[i].1.contains_key(user))
            },
            None => Ok(false),
        }
    }

    /// The roles of a user; roles are not listed by user, so none. Errors: the zero
    /// account.
    pub fn get_user_roles(&self, user: u64) -> (r: Result<Vec<String>, AccessControlError>)
        ensures
            user == 0 <==> r is Err,
            r matches Ok(v) ==> v@.len() == 0,
    {
        if user == 0 {
            return Err(AccessControlError::InvalidAddress);
        }
        Ok(Vec::new())
    }

    /// Replaces the role policy on behalf of the administrator. Errors: see
    /// `admin_error`.
    pub fn update_config(&mut self, caller: u64, config: RoleConfig) -> (r: Result<(), AccessControlError>)
        requires
            old(self).wf(),
        ensures
            final(self).wf(),
            old(self).admin_error(caller) matches Some(e) ==> r == Err::<(), AccessControlError>(e),
            old(self).admin_error(caller) is None ==> r is Ok,
            r is Err ==> *final(self) == *old(self),
            r is Ok ==> old(self).admin_error(caller) is None && *final(self) == (AccessControlContract {
                config: Some(config),
                ..*old(self)
            }),
    {
        match self.admin {
            None => {
                return Err(AccessControlError::NotInitialized);
            },
            Some(a) => {
                if a != caller {
                    return Err(AccessControlError::Unauthorized);
                }
            },
        }
        self.config = Some(config);
        Ok(())
    }

    /// The role policy. Errors: a contract not initialized.
    pub fn get_config(&self) -> (r: Result<RoleConfig, AccessControlError>)
        ensures
            match self.config {
                Some(c) => r == Ok::<RoleConfig, AccessControlError>(c),
                None => r == Err::<RoleConfig, AccessControlError>(AccessControlError::NotInitialized),
            },
    {
        match self.config {
            Some(c) => Ok(c),
            None => Err(AccessControlError::NotInitialized),
        }
    }

    /// Whether `user` has a permission: administrators have them all; no other
    /// permission is granted. Errors: the zero account; then, for a user who is not an
    /// administrator, a contract not initialized.
    pub fn check_access(&self, user: u64, permission: &String) -> (r: Result<bool, AccessControlError>)
        requires
            self.wf(),
        ensures
            user == 0 ==> r == Err::<bool, AccessControlError>(AccessControlError::InvalidAddress),
            user != 0 && self.grant_of(admin_role(), user) is Some ==> r == Ok::<bool, AccessControlError>(
                true,
            ),
            user != 0 && self.grant_of(admin_role(), user) is None ==> r == if self.config is Some {
                Ok::<bool, AccessControlError>(false)
            } else {
                Err::<bool, AccessControlError>(AccessControlError::NotInitialized)
            },
    {
        let a = String::from_str("ADMIN");
        proof {
            reveal_strlit("ADMIN");
        }
        match self.has_role(user, &a) {
            Err(e) => Err(e),
            Ok(true) => Ok(true),
            Ok(false) => match self.config {
                Some(_) => Ok(false),
                None => Err(AccessControlError::NotInitialized),
            },
        }
    }

    /// Requires that `user` holds `role`. Errors: the zero account, then a role not
    /// held.
    pub fn require_role(&self, user: u64, role: &String) -> (r: Result<(), AccessControlError>)
        requires
            self.wf(),
        ensures
            user == 0 ==> r == Err::<(), AccessControlError>(AccessControlError::InvalidAddress),
            user != 0 ==> (r is Ok <==> self.grant_of(role@, user) is Some),
            user != 0 && r is Err ==> r == Err::<(), AccessControlError>(
                AccessControlError::InsufficientPermissions,
            ),
    {
        match self.has_role(user, role) {
            Err(e) => Err(e),
            Ok(true) => Ok(()),
            Ok(false) => Err(AccessControlError::InsufficientPermissions),
        }
    }

    /// Requires that `user` has a permission (see `check_access`). Errors: those of
    /// `check_access`, then a permission not held.
    pub fn require_permission(&self, user: u64, permission: &String) -> (r: Result<(), AccessControlError>)
        requires
            self.wf(),
        ensures
            user == 0 ==> r == Err::<(), AccessControlError>(AccessControlError::InvalidAddress),
            user != 0 ==> (r is Ok <==> self.grant_of(admin_role(), user) is Some),
            user != 0 && self.grant_of(admin_role(), user) is None && self.config is Some ==> r == Err::<
                (),
                AccessControlError,
            >(AccessControlError::Unauthorized),
    {
        match self.check_access(user, permission) {
            Err(e) => Err(e),
            Ok(true) => Ok(()),
            Ok(false) => Err(AccessControlError::Unauthorized),
        }
    }
}

/// A role granted and then revoked is no longer held, and other grants are untouched
/// by either.
pub proof fn law_grant_then_revoke(
    before: AccessControlContract,
    granted: AccessControlContract,
    revoked: AccessControlContract,
    role: Seq<char>,
    user: u64,
    grant: RoleGrant,
)
    requires
        granted.grant_of(role, user) == Some(grant),
        forall|r2: Seq<char>, u2: u64|
            (r2 != role || u2 != user) ==> #[trigger] granted.grant_of(r2, u2) == before.grant_of(r2, u2),
        revoked.grant_of(role, user) is None,
        forall|r2: Seq<char>, u2: u64|
            (r2 != role || u2 != user) ==> #[trigger] revoked.grant_of(r2, u2) == granted.grant_of(r2, u2),
    ensures
        forall|r2: Seq<char>, u2: u64|
            (r2 != role || u2 != user) ==> #[trigger] revoked.grant_of(r2, u2) == before.grant_of(r2, u2),
        revoked.grant_of(role, user) is None,
{
    assert forall|r2: Seq<char>, u2: u64| (r2 != role || u2 != user) implies #[trigger] revoked.grant_of(r2, u2)
        == before.grant_of(r2, u2) by {
        assert(revoked.grant_of(r2, u2) == granted.grant_of(r2, u2));
    }
}

/// Storage limits and maintenance intervals.
#[derive(Debug, Clone, Copy, PartialEq, Eq, Structural)]
pub struct StorageConfig {
    pub max_operations: u64,
    /// In basis points.
    pub max_error_rate: u32,
    pub cleanup_interval: u64,
    pub optimization_threshold: u64,
}

impl Default for StorageConfig {
    /// A million operations, a 1% error rate, daily cleanup, optimization every 10000.
    fn default() -> (r: Self)
        ensures
            r == (StorageConfig {
                max_operations: 1_000_000,
                max_error_rate: 100,
                cleanup_interval: 86400,
                optimization_threshold: 10000,
            }),
    {
        StorageConfig {
            max_operations: 1_000_000,
            max_error_rate: 100,
            cleanup_interval: 86400,
            optimization_threshold: 10000,
        }
    }
}

/// Counters of storage use and maintenance.
#[derive(Debug, Clone, Copy, PartialEq, Eq, Structural)]
pub struct StorageMetrics {
    pub total_operations: u64,
    pub successful_operations: u64,
    pub failed_operations: u64,
    pub optimization_count: u64,
    pub cleanup_count: u64,
    pub last_optimization: u64,
    pub last_cleanup: u64,
    pub error_rate: u32,
}

/// All counters at zero.
pub open spec fn zero_metrics() -> StorageMetrics {
    StorageMetrics {
        total_operations: 0,
        successful_operations: 0,
        failed_operations: 0,
        optimization_count: 0,
        cleanup_count: 0,
        last_optimization: 0,
        last_cleanup: 0,
        error_rate: 0,
    }
}

impl Default for StorageMetrics {
    /// All counters at zero.
    fn default() -> (r: Self)
        ensures
            r == zero_metrics(),
    {
        StorageMetrics {
            total_operations: 0,
            successful_operations: 0,
            failed_operations: 0,
            optimization_count: 0,
            cleanup_count: 0,
            last_optimization: 0,
            last_cleanup: 0,
            error_rate: 0,
        }
    }
}

/// Errors of the storage contract.
#[derive(Debug, Clone, Copy, PartialEq, Eq, Structural)]
pub enum StorageError {
    InitializationError,
    ConfigurationError,
    OptimizationError,
    CleanupError,
    CapacityExceeded,
    AccessDenied,
}

/// The storage service contract.
pub struct StorageContract {
    pub admin: Option<u64>,
    pub config: Option<StorageConfig>,
    pub metrics: Option<StorageMetrics>,
    pub version: u32,
}

impl StorageContract {
    /// The metrics: those stored, or all zero.
    pub open spec fn current_metrics(self) -> StorageMetrics {
        match self.metrics {
            Some(m) => m,
            None => zero_metrics(),
        }
    }

    /// A contract that has not been initialized.
    pub fn new() -> (r: Self)
        ensures
            r.admin is None && r.config is None && r.metrics is None,
            r.version == 1,
    {
        StorageContract { admin: None, config: None, metrics: None, version: 1 }
    }

    /// Initializes the contract with zero metrics. Errors: a contract already
    /// initialized.
    pub fn initialize(&mut self, admin: u64, config: StorageConfig) -> (r: Result<(), StorageError>)
        ensures
            old(self).admin is Some <==> r is Err,
            r is Err ==> r == Err::<(), StorageError>(StorageError::InitializationError) && *final(self)
                == *old(self),
            r is Ok ==> *final(self) == (StorageContract {
                admin: Some(admin),
                config: Some(config),
                metrics: Some(zero_metrics()),
                version: 1,
            }),
    {
        if self.admin.is_some() {
            return Err(StorageError::InitializationError);
        }
        self.admin = Some(admin);
        self.config = Some(config);
        self.metrics = Some(StorageMetrics::default());
        self.version = 1;
        Ok(())
    }

    /// Whether `caller` is the administrator.
    pub open spec fn is_admin(self, caller: u64) -> bool {
        self.admin == Some(caller)
    }

    /// Replaces the configuration on behalf of the administrator. Errors: a caller
    /// other than the administrator.
    pub fn update_config(&mut self, caller: u64, config: StorageConfig) -> (r: Result<(), StorageError>)
        ensures
            !old(self).is_admin(caller) <==> r is Err,
            r is Err ==> r == Err::<(), StorageError>(StorageError::AccessDenied) && *final(self) == *old(
                self,
            ),
            r is Ok ==> *final(self) == (StorageContract { config: Some(config), ..*old(self) }),
    {
        if self.admin != Some(caller) {
            return Err(StorageError::AccessDenied);
        }
        self.config = Some(config);
        Ok(())
    }

    /// The metrics: those stored, or all zero.
    pub fn get_metrics(&self) -> (r: StorageMetrics)
        ensures
            r == self.current_metrics(),
    {
        match self.metrics {
            Some(m) => m,
            None => StorageMetrics::default(),
        }
    }

    /// Records a storage optimization at `now` on behalf of the administrator.
    /// Errors: a caller other than the administrator, then a count at `u64::MAX`.
    pub fn optimize_storage(&mut self, caller: u64, now: u64) -> (r: Result<u64, StorageError>)
        ensures
            !old(self).is_admin(caller) ==> r == Err::<u64, StorageError>(StorageError::AccessDenied),
            old(self).is_admin(caller) && old(self).current_metrics().optimization_count == u64::MAX
                ==> r == Err::<u64, StorageError>(StorageError::OptimizationError),
            old(self).is_admin(caller) && old(self).current_metrics().optimization_count < u64::MAX
                ==> r is Ok,
            r is Err ==> *final(self) == *old(self),
            r matches Ok(n) ==> {
                let m = old(self).current_metrics();
                &&& n == m.optimization_count + 1
                &&& *final(self) == (StorageContract {
                    metrics: Some(StorageMetrics { optimization_count: n, last_optimization: now, ..m }),
                    ..*old(self)
                })
            },
    {
        if self.admin != Some(caller) {
            return Err(StorageError::AccessDenied);
        }
        let mut m = self.get_metrics();
        if m.optimization_count == u64::MAX {
            return Err(StorageError::OptimizationError);
        }
        m.optimization_count = m.optimization_count + 1;
        m.last_optimization = now;
        self.metrics = Some(m);
        Ok(m.optimization_count)
    }

    /// Records a cleanup at `now` on behalf of the administrator. Errors: a caller
    /// other than the administrator, then a count at `u64::MAX`.
    pub fn cleanup_expired(&mut self, caller: u64, cutoff_time: u64, now: u64) -> (r: Result<(), StorageError>)
        ensures
            !old(self).is_admin(caller) ==> r == Err::<(), StorageError>(StorageError::AccessDenied),
            old(self).is_admin(caller) && old(self).current_metrics().cleanup_count == u64::MAX ==> r
                == Err::<(), StorageError>(StorageError::CleanupError),
            old(self).is_admin(caller) && old(self).current_metrics().cleanup_count < u64::MAX ==> r is Ok,
            r is Err ==> *final(self) == *old(self),
            r is Ok ==> {
                let m = old(self).current_metrics();
                *final(self) == (StorageContract {
                    metrics: Some(StorageMetrics { cleanup_count: (m.cleanup_count + 1) as u64, last_cleanup: now, ..m }),
                    ..*old(self)
                })
            },
    {
        if self.admin != Some(caller) {
            return Err(StorageError::AccessDenied);
        }
        let mut m = self.get_metrics();
        if m.cleanup_count == u64::MAX {
            return Err(StorageError::CleanupError);
        }
        m.cleanup_count = m.cleanup_count + 1;
        m.last_cleanup = now;
        self.metrics = Some(m);
        Ok(())
    }

    /// The configuration. Errors: a contract not initialized.
    pub fn get_config(&self) -> (r: Result<StorageConfig, StorageError>)
        ensures
            match self.config {
                Some(c) => r == Ok::<StorageConfig, StorageError>(c),
                None => r == Err::<StorageConfig, StorageError>(StorageError::InitializationError),
            },
    {
        match self.config {
            Some(c) => Ok(c),
            None => Err(StorageError::InitializationError),
        }
    }

    /// Whether storage is healthy: fewer operations than the maximum and an error rate
    /// below the maximum. Errors: a contract not initialized.
    pub fn is_healthy(&self) -> (r: Result<bool, StorageError>)
        ensures
            self.config is None <==> r is Err,
            r matches Ok(b) ==> b == (self.current_metrics().total_operations < self.config.unwrap().max_operations
                && self.current_metrics().error_rate < self.config.unwrap().max_error_rate),
    {
        let m = self.get_metrics();
        match self.get_config() {
            Ok(c) => Ok(m.total_operations < c.max_operations && m.error_rate < c.max_error_rate),
            Err(e) => Err(e),
        }
    }
}

} // verus!
