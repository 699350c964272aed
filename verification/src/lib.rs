//! Codd's relational model: relations as sets of tuples, with the
//! operations of projection, permutation, natural join, composition and
//! restriction.
pub mod value;
pub mod order;
pub mod tuple_set;
pub mod relation;
pub mod join;
pub mod comparison;
pub mod data;
pub mod facts;
pub mod figures;
pub mod laws;
pub mod join_laws;
pub mod render;
pub mod render_laws;
