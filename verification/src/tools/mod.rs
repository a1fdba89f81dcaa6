//! The tools that an agent reads and edits classifications with.
pub mod asset_taxonomy_assignments;
pub mod definition;
pub mod names;
pub mod outcomes;
pub mod reading_back;
pub mod set_asset_taxonomy_assignments;
pub mod taxonomies;
