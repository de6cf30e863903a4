//! Launch configurations: an executable paired with reusable groups of
//! environment variables, kept in a relational store.
//!
//! This crate is the part that decides. It rebuilds the nested view
//! (configuration, groups, environment variables) from the flat rows of the
//! store, tells which links to add and which to remove when a membership is
//! edited, resolves the selector of the configuration to launch, and says
//! what the launcher is to start. It opens no file, no connection and no
//! window: callers run the queries and hand over the rows.
//!
//! - [`models`]: the rows and the aggregate.
//! - [`environment`]: the effective environment of a configuration.
//! - [`aggregate`]: the aggregate of a set of joined rows.
//! - [`database`]: the steps of a read, query by query.
//! - [`marker`]: the marker file that names a configuration.
//! - [`reconcile`]: old against new membership.
//! - [`editor`]: what the editing forms store.
//! - [`launch`]: what the launcher is told.
//!
//! Every function is verified with Verus against the contract that it
//! states; the general properties of the aggregate, of reconciliation and of
//! the effective environment are proved as lemmas beside the functions.

pub mod aggregate;
pub mod database;
pub mod editor;
pub mod environment;
mod index;
pub mod launch;
pub mod marker;
pub mod models;
pub mod reconcile;
pub mod seqs;
