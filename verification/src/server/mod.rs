//! The message handling of the language server: what a message means, what is
//! sent back, and how messages are framed. Reading, writing and the analysis of
//! documents are left to the caller.

pub mod dispatch;
pub mod reply;
pub mod request;
pub mod wire;
