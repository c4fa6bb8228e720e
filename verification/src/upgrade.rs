//! The upgrade contract: versioned code upgrades announced ahead of time.
use vstd::prelude::*;
use crate::bytes::{copy_accounts, copy_bytes};

verus! {

/// Configuration of the upgrade process.
pub struct UpgradeConfig {
    pub min_notice_period: u64,
    pub max_upgrade_time: u64,
    pub require_multisig: bool,
    pub allowed_upgraders: Vec<u64>,
}

impl Default for UpgradeConfig {
    /// The default configuration: 24 hours notice, 1 hour upgrade window, multisig
    /// required, no listed upgraders.
    fn default() -> (r: Self)
        ensures
            r.min_notice_period == 86400,
            r.max_upgrade_time == 3600,
            r.require_multisig,
            r.allowed_upgraders@.len() == 0,
    {
        UpgradeConfig {
            min_notice_period: 86400,
            max_upgrade_time: 3600,
            require_multisig: true,
            allowed_upgraders: Vec::new(),
        }
    }
}

/// Phase of the upgrade process.
#[derive(Debug, Clone, Copy, PartialEq, Eq, Structural)]
pub enum UpgradeState {
    Idle,
    Scheduled,
    InProgress,
    Completed,
    Failed,
    Cancelled,
}

/// Status of one scheduled upgrade.
#[derive(Debug, Clone, Copy, PartialEq, Eq, Structural)]
pub enum UpgradeStatus {
    Scheduled,
    InProgress,
    Completed,
    Cancelled,
    Failed,
}

/// Errors of the upgrade contract.
#[derive(Debug, Clone, Copy, PartialEq, Eq, Structural)]
pub enum UpgradeError {
    NotInitialized,
    AlreadyScheduled,
    InsufficientNotice,
    Unauthorized,
    InvalidHash,
    TimeWindowExpired,
}

/// A scheduled upgrade.
pub struct UpgradeInfo {
    pub new_version: u32,
    pub new_contract_hash: Vec<u8>,
    pub scheduled_time: u64,
    pub status: UpgradeStatus,
}

/// The upgrade contract's state.
pub struct UpgradeContract {
    pub admin: Option<u64>,
    pub config: Option<UpgradeConfig>,
    pub current_version: Option<u32>,
    pub state: Option<UpgradeState>,
    pub upgrade_info: Option<UpgradeInfo>,
}

impl UpgradeContract {
    /// An uninitialized contract.
    pub fn new() -> (r: Self)
        ensures
            r.admin is None,
            r.config is None,
            r.current_version is None,
            r.state is None,
            r.upgrade_info is None,
    {
        UpgradeContract {
            admin: None,
            config: None,
            current_version: None,
            state: None,
            upgrade_info: None,
        }
    }

    /// Whether `account` is the administrator.
    pub open spec fn is_admin(self, account: u64) -> bool {
        self.admin == Some(account)
    }

    /// Initializes the contract once; `admin` authorizes the call.
    pub fn initialize(&mut self, admin: u64, config: UpgradeConfig)
        requires
            old(self).admin is None,
        ensures
            final(self).admin == Some(admin),
            final(self).config == Some(config),
            final(self).current_version == Some(1u32),
            final(self).state == Some(UpgradeState::Idle),
            final(self).upgrade_info == old(self).upgrade_info,
    {
        self.admin = Some(admin);
        self.config = Some(config);
        self.current_version = Some(1);
        self.state = Some(UpgradeState::Idle);
    }

    /// Whether scheduling at `now` passes the notice-period check: the contract refuses
    /// whenever `now + min_notice_period > min_notice_period`, that is, at any time
    /// after time 0.
    pub open spec fn notice_ok(self, now: u64) -> bool {
        now + self.config.unwrap().min_notice_period <= self.config.unwrap().min_notice_period
    }

    /// Schedules an upgrade to `new_version` with code `new_contract_hash`, executable
    /// after the notice period.
    pub fn schedule_upgrade(&mut self, admin: u64, new_version: u32, new_contract_hash: Vec<u8>, now: u64)
        requires
            old(self).is_admin(admin),
            old(self).config is Some,
            old(self).notice_ok(now),
        ensures
            final(self).upgrade_info matches Some(info) && info.new_version == new_version
                && info.new_contract_hash@ == new_contract_hash@ && info.scheduled_time == now
                + old(self).config.unwrap().min_notice_period && info.status
                == UpgradeStatus::Scheduled,
            final(self).state == Some(UpgradeState::Scheduled),
            final(self).admin == old(self).admin,
            final(self).config == old(self).config,
            final(self).current_version == old(self).current_version,
    {
        let notice = match &self.config {
            Some(c) => c.min_notice_period,
            None => 0,
        };
        self.upgrade_info = Some(
            UpgradeInfo {
                new_version,
                new_contract_hash,
                scheduled_time: now + notice,
                status: UpgradeStatus::Scheduled,
            },
        );
        self.state = Some(UpgradeState::Scheduled);
    }

    /// Executes the scheduled upgrade once its time has come: the current version
    /// becomes the scheduled one and the process is completed.
    pub fn execute_upgrade(&mut self, admin: u64, now: u64)
        requires
            old(self).is_admin(admin),
            old(self).upgrade_info matches Some(info) && info.status == UpgradeStatus::Scheduled
                && now >= info.scheduled_time,
        ensures
            final(self).current_version == Some(old(self).upgrade_info.unwrap().new_version),
            final(self).state == Some(UpgradeState::Completed),
            final(self).upgrade_info == old(self).upgrade_info,
            final(self).admin == old(self).admin,
            final(self).config == old(self).config,
    {
        let v = match &self.upgrade_info {
            Some(info) => info.new_version,
            None => 0,
        };
        self.current_version = Some(v);
        self.state = Some(UpgradeState::Completed);
    }

    /// Cancels the scheduled upgrade.
    pub fn cancel_upgrade(&mut self, admin: u64)
        requires
            old(self).is_admin(admin),
            old(self).upgrade_info matches Some(info) && info.status == UpgradeStatus::Scheduled,
        ensures
            final(self).upgrade_info matches Some(info) && info.status == UpgradeStatus::Cancelled
                && info.new_version == old(self).upgrade_info.unwrap().new_version
                && info.scheduled_time == old(self).upgrade_info.unwrap().scheduled_time,
            final(self).state == Some(UpgradeState::Idle),
            final(self).current_version == old(self).current_version,
            final(self).admin == old(self).admin,
            final(self).config == old(self).config,
    {
        match &mut self.upgrade_info {
            Some(info) => {
                info.status = UpgradeStatus::Cancelled;
            },
            None => {},
        }
        self.state = Some(UpgradeState::Idle);
    }

    /// The current version: 1 unless upgraded.
    pub fn get_current_version(&self) -> (r: u32)
        ensures
            r == match self.current_version {
                Some(v) => v,
                None => 1,
            },
    {
        match self.current_version {
            Some(v) => v,
            None => 1,
        }
    }

    /// The configuration; the contract must be initialized.
    pub fn get_config(&self) -> (r: UpgradeConfig)
        requires
            self.config is Some,
        ensures
            r.min_notice_period == self.config.unwrap().min_notice_period,
            r.max_upgrade_time == self.config.unwrap().max_upgrade_time,
            r.require_multisig == self.config.unwrap().require_multisig,
            r.allowed_upgraders@ == self.config.unwrap().allowed_upgraders@,
    {
        match &self.config {
            Some(c) => UpgradeConfig {
                min_notice_period: c.min_notice_period,
                max_upgrade_time: c.max_upgrade_time,
                require_multisig: c.require_multisig,
                allowed_upgraders: copy_accounts(&c.allowed_upgraders),
            },
            None => UpgradeConfig::default(),
        }
    }

    /// The scheduled upgrade; one must have been scheduled.
    pub fn get_upgrade_info(&self) -> (r: UpgradeInfo)
        requires
            self.upgrade_info is Some,
        ensures
            r.new_version == self.upgrade_info.unwrap().new_version,
            r.new_contract_hash@ == self.upgrade_info.unwrap().new_contract_hash@,
            r.scheduled_time == self.upgrade_info.unwrap().scheduled_time,
            r.status == self.upgrade_info.unwrap().status,
    {
        match &self.upgrade_info {
            Some(i) => UpgradeInfo {
                new_version: i.new_version,
                new_contract_hash: copy_bytes(&i.new_contract_hash),
                scheduled_time: i.scheduled_time,
                status: i.status,
            },
            None => UpgradeInfo {
                new_version: 0,
                new_contract_hash: Vec::new(),
                scheduled_time: 0,
                status: UpgradeStatus::Failed,
            },
        }
    }

    /// The upgrade phase: idle unless set.
    pub fn get_upgrade_state(&self) -> (r: UpgradeState)
        ensures
            r == match self.state {
                Some(s) => s,
                None => UpgradeState::Idle,
            },
    {
        match self.state {
            Some(s) => s,
            None => UpgradeState::Idle,
        }
    }
}

} // verus!
