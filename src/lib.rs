//! Access control and repository resolution for a small file-repository server:
//! capability levels, password verification, per-repository permissions and
//! sandboxed path resolution.

pub mod auth;
pub mod config;
pub mod hashing;
pub mod path;
pub mod registry;
pub mod repository;
pub mod user_pass;
pub mod utils;
