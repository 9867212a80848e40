//! Registry of named network targets kept as `name=address` lines, and the
//! text that wires the registry into an interactive shell.

pub mod command_functions;
pub mod entry;
pub mod file_action;
pub mod install_functions;
pub mod lines;
pub mod text;
pub mod theorems;
pub mod utility_functions;
