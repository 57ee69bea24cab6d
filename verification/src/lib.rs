//! A static capability registry with query operations: list, filter, search,
//! and detail lookup over a fixed catalog of integrations (chat providers,
//! AI model backends, automation hooks, and the like). Each entry's activation
//! status is computed from a runtime configuration snapshot.

pub mod filters;
pub mod laws;
pub mod model;
pub mod query;
pub mod registry;
pub mod text;
