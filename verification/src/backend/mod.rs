//! The emitter: prints a lifted function as Luau source text.

pub mod expression;
pub mod laws;
pub mod manager;
pub mod statement;
