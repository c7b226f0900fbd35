//! Reading a virtual machine's memory from its host.
pub mod guest;
pub mod laws;
pub mod maps;
pub mod process;
