//! Diagnostics for the fiducia.cloud stack.

pub mod cloudflare;
pub mod domains;
pub mod env_map;
pub mod filters;
pub mod flags;
pub mod http;
pub mod json;
pub mod k8s;
pub mod repo_map;
pub mod server;
pub mod shared_bootstrap;
pub mod text;
pub mod upstream;

pub use env_map::{env_value, get_env_map, EnvMap};
