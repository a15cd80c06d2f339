//! Over-the-air update engine for a fleet of packaged services: artifact
//! naming, version comparison, working-directory bookkeeping, update
//! orchestration and the service health registry.

pub mod text;
pub mod version;
pub mod artifact;
pub mod workdir;
pub mod recency;
pub mod deb;
pub mod installer_laws;
pub mod registry;
pub mod release;
pub mod transaction;
pub mod config;
pub mod manager;
pub mod cycle;
pub mod monitor;
pub mod status;
pub mod tags;
