//! Account-state reconciliation for the session store of a desktop
//! application.
//!
//! The store is a table of string rows. A fixed set of managed fields holds
//! the authentication state, and a marker document, itself a row of the
//! table, records a sync flag for each tracked field. This library clears,
//! and restores from a snapshot, the managed fields of a store while keeping
//! the marker in step with the rows that exist.
//!
//! The library performs no input or output. An operation on a store is a
//! session: it names the next command for the table and takes the reply.
//! [`store::KeyStore`] is a table in memory that answers such commands, and
//! [`laws`] states what clearing and restoring come to on such a table.
//!
//! - [`config`]: the managed fields and the reserved keys of a store.
//! - [`marker`], [`snapshot`]: the two JSON documents of the reconciliation.
//! - [`store`]: commands, replies, and the table in memory.
//! - [`clear`], [`restore`]: the two operations on one store.
//! - [`operation`]: the operations on the primary store and its replica.
//! - [`error`], [`message`]: what is reported to the user.
//! - [`catalog`]: the directory of snapshot files.
//! - [`platform`], [`logs`], [`tray`], [`window`], [`restart`], [`export`],
//!   [`cipher`]: what the application around the stores decides and tells.
//! - [`json`], [`encoding`], [`time`]: the calls into `serde_json`, `base64`
//!   and `chrono`.
//! - [`text`]: strings as keys.

pub mod catalog;
pub mod cipher;
pub mod clear;
pub mod config;
pub mod encoding;
pub mod error;
pub mod export;
pub mod json;
pub mod laws;
pub mod logs;
pub mod marker;
pub mod message;
pub mod operation;
pub mod platform;
pub mod restart;
pub mod restore;
pub mod snapshot;
pub mod store;
pub mod text;
pub mod time;
pub mod tray;
pub mod window;
