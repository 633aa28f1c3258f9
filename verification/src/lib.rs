//! Audit of organizations in a remote infrastructure-management service.
//!
//! The library finds accounts whose last activity lies beyond a fixed
//! retention window, renders them to a tabular report, reads an operator's
//! confirmation, and models the confirmation-gated cleanup of the
//! workspaces the report names.  Network transport, the terminal, the file
//! system and the external deletion command stay with the caller; the
//! decision logic here is verified.

pub mod account;
pub mod cleanup;
pub mod fetch;
pub mod filter;
pub mod gate;
pub mod phase;
pub mod report;
