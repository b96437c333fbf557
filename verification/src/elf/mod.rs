//! ELF64 parsing and load planning for RISC-V executables.
pub mod bytes;
pub mod constants;
pub mod error;
pub mod exec;
pub mod loader;
pub mod parser;
pub mod structures;
