//! Backend health tracking and selection engine of a caching load
//! balancer for JSON-RPC nodes.
//!
//! The crate models each backend's live health state ([`rpc::Rpc`]),
//! ranks backends by latency and picks one per request
//! ([`selection`]), moves backends between the active and the poverty
//! pool ([`pools`]), folds probe results into the records and seeds the
//! startup split ([`health`]), drives the bounded retry/failover loop
//! of a single request ([`dispatch`]), and decides everything the
//! startup configuration determines ([`config`]). The thin decisions of
//! the admin surface live under [`admin`]; network I/O, the probing
//! loop and flag parsing stay outside the crate.

pub mod admin;
pub mod config;
pub mod rpc;
pub mod selection;
pub mod pools;
pub mod health;
pub mod dispatch;
mod trusted;
