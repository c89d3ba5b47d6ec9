//! Translation of WebAssembly function bodies into Luau source text.
//!
//! The crate is organised as a pipeline. Linear passes over the operators
//! of a function body ([`passes`]) remove dead code and annotate blocks; the
//! lifter ([`ast::factory`]) rebuilds a tree of blocks, statements and
//! expressions from the stack machine code; the emitter ([`backend`])
//! prints the tree. Beside them stands a graph of regions
//! ([`data_flow`]) with a collector for unreachable nodes ([`transform`])
//! and a Graphviz rendering ([`dot`]).

pub mod ast;
pub mod backend;
pub mod data_flow;
pub mod dot;
pub mod passes;
pub mod text;
pub mod transform;
