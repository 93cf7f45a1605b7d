//! Verified core of a single-user task tracker.
//!
//! The library covers the entity model (tasks, projects, tags), the view
//! classifier that sorts tasks into named buckets from their date and status
//! fields, and the reconciliation engine that merges a remote snapshot of
//! assigned issues and pull requests into the local task store.

pub mod app_state;
pub mod classify;
pub mod config;
pub mod input;
pub mod modal;
pub mod model;
pub mod reconcile;
pub mod remote;
pub mod runtime;
pub mod settings_view;
pub mod sort;
pub mod sidebar;
pub mod task_form;
pub mod strutil;
pub mod toggl;
pub mod views;
