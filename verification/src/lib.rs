//! Generator core for strongly-typed TR-064 client bindings.
//!
//! The library walks a parsed device description, resolves each service's
//! action and state-variable schema into a semantic model, normalizes the
//! vendor's identifiers into snake_case names, and aggregates the per-service
//! models into deterministic, deduplicated output units. Fetching the XML
//! documents, rendering the model through templates and writing files are left
//! to the surrounding application.

pub mod api_desc;
pub mod api_desc_dir;
pub mod error;
pub mod helper;
pub mod model;
pub mod text;
pub mod types;
