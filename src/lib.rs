//! Resolve the highest semantic-version tag of a repository, bump it, and
//! decide each step of tagging and pushing the new release.
pub mod config;
pub mod select;
pub mod tags;
pub mod version;
pub mod workflow;

pub use config::Config;
pub use version::{Bump, Identifier, Version};
