//! The GitHub GraphQL side: query texts, response shapes, their decoding into
//! the domain model, and the decisions taken while fetching a project.
pub mod client;
pub mod queries;
pub mod types;
