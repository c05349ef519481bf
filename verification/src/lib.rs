//! The core of a line-oriented command interpreter: a quote- and escape-aware
//! tokenizer, the classification of commands into builtins and external
//! programs, path handling, and the dispatcher that decides what each
//! command does. Nothing here performs I/O; the host performs what the
//! dispatcher asks for and reports back.

pub mod builtins;
pub mod command;
pub mod cursor;
pub mod dispatch;
pub mod dispatch_laws;
pub mod lexer;
pub mod lexer_laws;
pub mod path;
pub mod path_laws;
pub mod session;
pub mod text;
