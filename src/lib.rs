//! Batch runner that turns detection rules into search queries, submits each
//! one as a job to a search service and follows it to a terminal state.
//!
//! The modules hold the decisions of that process; the caller performs the
//! conversions, file reads and HTTP calls and hands the results back.
pub mod config;
pub mod dispatcher;
pub mod query;
pub mod response;
pub mod source;
pub mod task;
