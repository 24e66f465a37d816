//! Verified core of the SigOps agent: the command security policy, token
//! rotation, heartbeat retry and endpoint rules, task planning and the
//! parsing of tool output.

pub mod text;
pub mod security;
pub mod heartbeat;
pub mod json;
pub mod executor;
pub mod config;
pub mod discovery;
pub mod health;

pub use config::Config;
