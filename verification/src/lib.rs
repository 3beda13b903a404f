//! Provider catalog, `/provider` command and child-bridge decisions of the pager.

pub mod text;
pub mod provider_catalog;
pub mod provider_command;
pub mod laws;
pub mod child_bridge;
