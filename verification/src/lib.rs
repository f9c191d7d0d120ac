//! Core of an SSH port-forwarding manager: the catalog of endpoints and
//! tunnels, the lifecycle rules for live sessions and forwarding workers, and
//! the replace-on-write persistence protocol, each with a machine-checked
//! contract.

pub mod commands;
pub mod engine;
pub mod forward;
pub mod fresh;
pub mod json;
pub mod manager;
pub mod model;
pub mod probe;
pub mod serde_utils;
pub mod settings;
pub mod storage;
pub mod table;
pub mod text;
