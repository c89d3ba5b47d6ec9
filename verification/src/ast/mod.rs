//! The structured tree that the lifter builds and the emitter prints.

pub mod factory;
pub mod laws;
pub mod node;
pub mod operator;
pub mod stack;
