//! Runtime support for a coding agent: file tools, page and line windows,
//! notebook rendering, search, feature flags, debug filters, IDE bridge
//! state, JSON-RPC envelopes and usage report helpers.
pub mod text;
pub mod str_map;
pub mod json;
pub mod file_ops;
pub mod pdf;
pub mod search;
pub mod notebook;
pub mod edit;
pub mod types;
pub mod debug;
pub mod feature_flags;
pub mod ide_bridge;
pub mod mcp_transport;
pub mod usage_dashboard;
pub mod glob_search;
