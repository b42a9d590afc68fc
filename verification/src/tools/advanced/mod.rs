//! Tools built on other agents.

pub mod delegation;
