//! Provider-agnostic core for CRUD operations on cloud object storage:
//! the error taxonomy, destination-path parsing, pagination cursors,
//! blob references and their hydration state, and an in-memory backing
//! store that carries the whole contract.
pub mod blob;
pub mod destination;
pub mod errors;
pub mod laws;
pub mod listing;
pub mod memory;
pub mod model;
pub mod providers;
