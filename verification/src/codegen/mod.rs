//! The C back end.

pub mod builtins;
pub mod c;
pub mod exprs;
pub mod model;
pub mod order;
pub mod runtime;
pub mod stmts;
pub mod typedefs;
mod types;
