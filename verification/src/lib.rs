//! Core of a declarative system-configuration manager: validation of
//! configuration text, privilege-elevation decisions, atomic save with
//! backup, and plans for the external rebuild, package and service tools.
//!
//! All subprocess and filesystem effects are performed by a thin unverified
//! shell around this crate; every decision the shell acts on is computed and
//! specified here.

pub mod api;
pub mod clock;
pub mod command;
pub mod errors;
pub mod fs_model;
pub mod laws;
pub mod packages;
pub mod privilege;
pub mod rebuild;
pub mod security;
pub mod services;
pub mod store;
pub mod text;
pub mod validation;
