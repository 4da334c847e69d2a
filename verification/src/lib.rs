//! The back half of a compiler for the X language: the checker, the C code
//! generator, and the message handling of its language server.

pub mod aliases;
pub mod ast;
pub mod codegen;
pub mod declared;
pub mod error;
pub mod json;
pub mod laws;
pub mod names;
pub mod scopes;
pub mod server;
pub mod source;
pub mod text;
pub mod typecheck;
pub mod values;
