//! Verified core of the elinOS kernel: ELF parsing, VirtIO queue handling,
//! SD card protocol, filesystem metadata, memory mapping and system calls.
pub mod collections;
pub mod commands;
pub mod elf;
pub mod filesystem;
pub mod graphics;
pub mod reports;
pub mod shell;
pub mod memory;
pub mod virtio;
pub mod drivers;
pub mod syscall;
