//! Decoding and projection of delta-coded OSM primitive blocks into
//! relational rows, together with the schema and load planning around them.

pub mod config;
pub mod delta;
pub mod error;
pub mod load;
pub mod model;
pub mod normalize;
pub mod project;
pub mod results;
pub mod router;
pub mod rows;
pub mod schema;
pub mod strtab;
pub mod tags;
