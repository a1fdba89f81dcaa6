//! Taxonomies: schemes that classify assets, such as regions or sectors, with
//! hierarchies of categories and weighted assignments of assets to them.
//!
//! The library holds the rules of the taxonomy service and of the tools that an
//! agent uses on it. Stores and services are reached from outside. An operation
//! is a chain of values, each of which names in its documentation the call that
//! comes next; a method takes the answer of that call and gives the next value,
//! the outcome or the error.
//!
//! - [`models`], [`errors`], [`text`], [`ids`]: records, errors, numbers in
//!   messages, fresh ids.
//! - [`ordering`], [`children_map`], [`hierarchy`]: categories in the order of
//!   their siblings, grouped by parent, and as a forest.
//! - [`flatten`], [`exchange`], [`round_trip`]: import and export, and why an
//!   export gives back what was imported.
//! - [`taxonomy_service`], [`assignments`], [`assignment_store`]: the operations
//!   of the service, and what a store holds after them.
//! - [`outcomes`]: what the operations of the service give, for all that may go
//!   into them.
//! - [`tools`]: listing taxonomies, reading and replacing assignments.
pub mod assignment_store;
pub mod assignments;
pub mod children_map;
pub mod errors;
pub mod exchange;
pub mod flatten;
pub mod hierarchy;
pub mod ids;
pub mod models;
pub mod ordering;
pub mod outcomes;
pub mod round_trip;
pub mod taxonomy_service;
pub mod text;
pub mod tools;
