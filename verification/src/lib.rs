//! The logic of majjit, a terminal interface to the Jujutsu (jj) version
//! control system: the jj log read as a foldable tree, the jj invocations
//! the interface makes and how their output is read, and the drafting of
//! change descriptions with a user-configured command.
//!
//! Processes, the terminal and drawing are left to the caller: the library
//! says what to run and what the outcome means.
pub mod ai_describe;
pub mod ansi;
pub mod log_tree;
pub mod model;
pub mod shell_out;
pub mod text;
