//! Pull-request cache and auto-merge decision engine.

pub mod accounts;
pub mod checks;
pub mod discovery;
pub mod merge;
pub mod query;
pub mod record;
pub mod run;
pub mod run_laws;
pub mod scheduler;
pub mod snapshot;
pub mod text;
pub mod trigger;
pub mod walk_laws;

pub use crate::query::GetPullRequestsQuery;
