//! Provisioning of the Python package installer inside a container build:
//! which system packages a set of requirement specifiers needs, the exact
//! installer command line, the persistent cache bindings, and the freeze
//! snapshots of what was installed.

mod text;

pub mod packages;
pub mod features;
pub mod settings;
pub mod context;
pub mod command;
pub mod manifest;
pub mod pip;
