//! Query orchestration and result materialization for a tabular data
//! explorer: injection-free construction of bounded, ordered queries over
//! columnar files, a total normalizer from engine values to display text,
//! an execution engine around a single shared analytical connection, and
//! the per-tab state machine that consumes result messages.

pub mod backend;
pub mod calendar;
pub mod cell;
pub mod messages;
pub mod numtext;
pub mod query;
pub mod tab;
