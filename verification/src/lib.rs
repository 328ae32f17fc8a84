//! A verified core for a genealogical graph: people as nodes, parent and
//! marriage links as typed, attributed edges.
//!
//! - [`domain`] holds the entities and their invariants, and the error
//!   taxonomy of the store operations.
//! - [`dates`] holds calendar dates and their ISO text form.
//! - [`repository`] is the graph store: create and read people, add
//!   relationships, and walk family trees, all against a mathematical
//!   model of the stored graph.
//! - [`traversal`] is the bounded breadth-first engine the repository
//!   walks with: depth-bounded, de-duplicated, start excluded.
//! - [`records`] are the import adapters: delimited rows and statement
//!   scripts in, an import report with per-record failures out.
//! - [`queries`] builds the parameterized queries and maps rows back for
//!   callers that keep the graph in an external store.
//! - [`text`] holds the plain-text helpers under the adapters.

pub mod dates;
pub mod domain;
pub mod queries;
pub mod records;
pub mod repository;
pub mod text;
pub mod traversal;
