//! A typed client core for a hosted vector-search service: filter and rank
//! expressions, their JSON wire grammar in both directions, and the bodies
//! and paths of the requests that carry them.
pub mod endpoint;
pub mod error;
pub mod filter;
pub mod json;
pub mod listing;
pub mod rank;
pub mod request;
