//! Verified core of an Agent-to-Agent (A2A) toolkit.
//!
//! The crate holds the decisions of an A2A server, client and command line
//! as executable functions with contracts: task storage and paging, the
//! execution and subscription state machines, push notification safety,
//! transport selection, wire-log redaction, agent card schemas, and the
//! command line's configuration, rendering and error reporting.

pub mod artifacts;
pub mod card_schema;
pub mod cli;
pub mod copies;
pub mod drive;
pub mod error_code;
pub mod events;
pub mod execution;
pub mod factory;
pub mod handler;
pub mod json;
pub mod net;
pub mod order;
pub mod pagination;
pub mod plugin;
pub mod protocol;
pub mod push;
pub mod replica;
pub mod schema_rules;
pub mod span;
pub mod spelling;
pub mod sse;
pub mod table;
pub mod task_store;
pub mod text;
pub mod wire;
