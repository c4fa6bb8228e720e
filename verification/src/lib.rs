//! Gathera: the rules of the Gathera event-ticketing contracts, as a verified library.
//!
//! Every contract is modelled as a plain state value (accounts are integer ids) together
//! with the operations that the deployed contract performs on it.
pub mod utils;
pub mod arith;
pub mod crypto;
pub mod table;
pub mod access;
pub mod staking;
pub mod common_error;
pub mod subscription;
pub mod auction;
pub mod governance;
pub mod vrf;
pub mod ticket;
pub mod upgrade;
pub mod bytes;
pub mod multisig;
pub mod nonces;
pub mod multisig_wallet;
pub mod zk_ticket;
pub mod zk_contract;
pub mod identity;
pub mod ticket_core;
pub mod feature_flag;
pub mod whitelist;
pub mod escrow;
pub mod core_contracts;
pub mod storage_init;
pub mod gas;
