pub mod hiqueries;
pub mod hivecs;
pub mod lattices;
