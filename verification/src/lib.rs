//! Extraction of an organization's member roster (with SSO identity linkage)
//! and repository metadata from a paginated GraphQL API, joined and laid out
//! as CSV rows.
//!
//! The library holds the verified core: envelope extraction, the
//! dual-cursor pagination state machine, the identity reconciliation join,
//! and the tabular row layout. Network transport, terminal progress output
//! and file writing live outside, in the accompanying application crate.

pub mod client;
pub mod config;
pub mod data;
pub mod extract;
pub mod paginate;
pub mod reconcile;
pub mod table;
pub mod text;
