//! The command line: what an invocation asks for, and how it is answered.

pub mod args;
pub mod commands;
pub mod config;
pub mod connect;
pub mod error;
pub mod negotiate;
pub mod outcome;
pub mod parts;
pub mod reference;
pub mod render;
pub mod subscribe;
pub mod wait;
