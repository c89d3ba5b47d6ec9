//! Linear passes over the operators of a function body.

pub mod boundary_tracking;
pub mod dead_code_elimination;
pub mod demand_annotation;
pub mod read_write_annotation;
