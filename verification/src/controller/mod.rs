//! The controller's wire protocol and the command sets built on it.
pub mod clear_core;
pub mod motor;
