//! Model Context Protocol servers: their configuration and the tools they
//! offer. Connecting to them is left to the caller.

pub mod config;
pub mod reply;
pub mod tools;
