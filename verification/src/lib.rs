//! Safety gate and credential vault for ad hoc SQL.
//!
//! The query validator of [`validator`] classifies the statements of a SQL
//! text, holds them to the allow-list and the row limits of a
//! [`config::SafetyPolicy`], and adds the default limit where a batch of
//! queries names none. The cipher of [`crypto`] and the master key store of
//! [`secret`] keep passwords as tokens that only the master key opens.
//!
//! Around them stand the layered configuration ([`config`]), the cached
//! schema of a database ([`cache`], [`schema`]), saved queries
//! ([`query_manager`]) and the layout of what is shown ([`format`], [`db`]).
//! Reading and writing files, the environment and the databases are left to
//! the caller: the library takes what was read and says what is to be
//! written.

pub mod cache;
pub mod config;
pub mod crypto;
pub mod db;
pub mod format;
pub mod name_map;
pub mod query_manager;
pub mod schema;
pub mod secret;
pub mod text;
pub mod validator;
