//! Validation of the plugin catalog (`catalog.json`): field rules for each
//! entry, uniqueness of ids across the catalog, and the decisions around
//! the reachability probes of each `download_url`.

pub mod finding;
pub mod catalog;
pub mod external;
pub mod rules;
pub mod validate;
pub mod laws;
pub mod reachability;

pub use finding::Finding;
pub use rules::{is_valid_id, require_non_empty};
pub use validate::{validate_catalog, validate_catalog_with};
