//! Sandbox policies for running one command inside a lightweight sandbox.

pub mod bwrap;
pub mod bwrap_effects;
pub mod bwrap_steps;
pub mod byte_string;
pub mod cli;
pub mod config;
pub mod copies;
pub mod env_map;
pub mod env_plan;
pub mod error;
pub mod guarantees;
pub mod host;
pub mod landlock_plan;
pub mod landlock_support;
pub mod launch;
pub mod linux;
pub mod mounts;
pub mod order;
pub mod placed;
pub mod platform;
pub mod policy;
pub mod policy_input;
pub mod program;
pub mod settling;
pub mod text;
pub mod unix_path;

pub use byte_string::ByteString;
pub use env_map::EnvMap;
pub use unix_path::UnixPath;
