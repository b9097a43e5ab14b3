//! A debug shell that lets an operator call named entry points of a running
//! program: the command-line grammar, the registry and dispatch rules, the
//! output-redirection state machine, and the attach client's decisions.
pub mod text;
pub mod decimal;
pub mod grammar;
pub mod registry;
pub mod dispatch;
pub mod output;
pub mod complete;
pub mod procs;
pub mod server;
pub mod client;
pub mod codec;
