//! Project-environment auditor: infers the runtimes, services, ports and
//! environment variables a project expects from its manifest files, and
//! evaluates what a host actually provides against those expectations.

pub mod check;
pub mod checks;
pub mod config;
pub mod detect;
pub mod platform;
pub mod text;
pub mod version;
