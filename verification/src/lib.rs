//! Reconciliation of a repository's observed configuration against a declared
//! desired state: settings, topics and branch protection.
//!
//! Every function here is pure: callers fetch the observed state, hand it over
//! as plain values, and carry out whatever the returned plan asks for.

pub mod api;
pub mod branch_protection_rules;
pub mod config;
pub mod models;
pub mod reconcile;
pub mod repository_settings;
pub mod text;
pub mod topic_operation;
