//! What holds of the compiler as a whole.

pub mod aliases;
pub mod branches;
pub mod calls;
pub mod checker;
pub mod collected;
pub mod declarations;
pub mod expressions;
pub mod functions;
pub mod helpers;
pub mod known;
pub mod library;
pub mod lines;
pub mod messages;
pub mod nested;
pub mod operators;
pub mod output;
pub mod program;
pub mod readings;
pub mod replies;
pub mod runtime;
pub mod server;
pub mod shapes;
pub mod statements;
pub mod strings;
pub mod texts;
pub mod tls;
pub mod tls_calls;
pub mod typedefs;
pub mod verdicts;
pub mod views;
