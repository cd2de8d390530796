//! Removal of a scope from a namespace/database-scoped, transactional data
//! system.
//!
//! A scope is a named schema object stored per database. Removing one must
//! authorize the caller, claim exclusive access to the mutating transaction
//! handle, invalidate any cached schema metadata, delete the scope's single
//! definition entry, and delete the whole key range of data ever written
//! under the scope.
//!
//! The crate is organised around that pathway:
//! - [`err`] — the failure kinds a removal or a parse can surface;
//! - [`ident`] — validated identifiers naming a scope;
//! - [`iam`] — the execution context and its permission gate;
//! - [`kvs`] — the keyed store behind a transaction handle, with an event
//!   log that the discipline laws speak of;
//! - [`statement`] — the command value, its canonical rendering, and its
//!   execution;
//! - [`parse`] — the statement grammar.

pub mod err;
pub mod iam;
pub mod ident;
pub mod kvs;
pub mod parse;
pub mod statement;
