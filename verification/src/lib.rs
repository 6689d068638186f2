//! Storage core of a map-annotation service: pins, their ratings, and the
//! rules that a store of them keeps.

pub mod db;
pub mod double;
pub mod errors;
pub mod laws;
pub mod server;
