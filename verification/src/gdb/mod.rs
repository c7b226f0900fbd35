//! Breakpoints on the debugged target.
pub mod breakpoints;
pub mod changes;
pub mod install;
pub mod laws;
pub mod manager_laws;
pub mod masking;
pub mod queries;
pub mod query_laws;
pub mod refusal_laws;
pub mod target_laws;
pub mod transport_laws;
