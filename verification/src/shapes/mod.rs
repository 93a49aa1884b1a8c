//! Primitive shapes: their mesh topology, and the builder that merges several
//! shapes into one mesh.

pub mod topology;
pub mod builder;
pub mod sphere;
