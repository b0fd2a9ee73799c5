//! Symbolic front end to a SAT engine: clauses of named literals are
//! translated to indexed literals, solved, and the model is translated back.

pub mod cnf;
pub mod codec;
pub mod engine;
pub mod registry;
pub mod solve;
