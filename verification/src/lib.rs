pub mod circuit;
pub mod field;
pub mod merkle_tree;
pub mod poseidon;
pub mod witness;
