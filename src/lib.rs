//! A small line-oriented command interpreter: a quote-aware tokenizer that
//! turns a line into pipeline stages, builtin handlers, a builtin registry,
//! executable search over a search list, and the engine that threads each
//! stage's captured output into the next one.
//!
//! Everything that touches the operating system (spawning processes, the
//! working directory, the environment, the disk) is done by the caller; the
//! library decides what to do and what each step produces.
pub mod text;
pub mod command;
pub mod errors;
pub mod shell;
pub mod registry;
pub mod pipeline;
pub mod search;
