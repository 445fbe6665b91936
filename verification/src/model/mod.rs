//! Domain model: project items, status columns and the item filter.
pub mod filter;
pub mod project_item;
