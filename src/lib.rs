//! Orchestration engine for installing a local MongoDB service: the ordered
//! installation steps, the credential exchange with the user interface, the
//! download retry policy and the installation probes.

pub mod text;
pub mod progress;
pub mod plan;
pub mod sequencer;
pub mod broker;
pub mod detector;
pub mod download;
pub mod windows;
