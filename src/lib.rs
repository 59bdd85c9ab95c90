//! Access control and lifecycle of hosted bare repositories and their users.
//!
//! Group membership on the host is the access graph; each user's link farm
//! and browser catalog are derived from it. Every operation is planned here
//! as a list of `action::Action`s from what the host reported (whether a
//! repository's directory exists, a group entry, a command's output), and
//! each plan, each reading of the host's output and the rename saga carry
//! contracts proved by Verus. The caller performs the plans.

pub mod action;
pub mod error;
pub mod info;
pub mod laws;
pub mod listing;
pub mod repo;
pub mod saga;
pub mod text;
pub mod user;
