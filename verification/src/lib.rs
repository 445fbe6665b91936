//! Core logic of a terminal viewer for GitHub Project boards: the domain
//! model, the filter language, the decoding of API responses, pagination,
//! ordering of items, configuration handling and path resolution.
pub mod api;
pub mod cache;
pub mod config;
pub mod logging;
pub mod model;
pub mod paths;
pub mod startup;
pub mod text;
