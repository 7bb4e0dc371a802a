//! Verified core of the low-latency agent-browser adapters.

pub mod fast_channel;
pub mod fast_mcp;
pub mod fast_mcp_bootstrap;
pub mod fast_mcp_command;
pub mod fast_mcp_config;
pub mod fast_mcp_tools;
pub mod fast_path;
pub mod fast_path_args;
pub mod fast_transport;
pub mod json;
pub mod path;
pub mod registry;
pub mod session;
pub mod text;
