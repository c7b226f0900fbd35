//! The core of a debugger for Windows guests in virtual machines.

pub mod backend;
pub mod backend_laws;
pub mod bugchecks;
pub mod error;
pub mod gdb;
pub mod host;
pub mod inspect;
pub mod memory;
pub mod memory_laws;
pub mod pe;
pub mod pe_laws;
pub mod repl;
pub mod session;
pub mod session_laws;
pub mod target;
pub mod text;
pub mod text_laws;
pub mod trapframe;
pub mod types;
pub mod ui;
pub mod ui_laws;
pub mod variables;
pub mod view;
pub mod walk_laws;
