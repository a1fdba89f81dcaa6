# taxonomy

Taxonomies are schemes that classify assets, such as regions or sectors. Each has
a hierarchy of categories, and assets are assigned to categories with weights in
basis points.

This crate holds the rules of the taxonomy service and of the tools that an agent
uses on it, written in Rust and proved with Verus.

- `src/` is the library. Its functions make no calls on a store or a service.
  An operation is a chain of values: each names the call that comes next, and a
  method takes the answer and gives the next value, the outcome or the error.
- `tests/` runs the library on concrete values, over stores held in memory.
- `app/` connects the library to a store, to JSON and to the agent framework.

What is trusted: fresh ids come from the `uuid` crate (`src/ids.rs`), and points in
time are `chrono` values that the library carries unread (`src/models.rs`).
