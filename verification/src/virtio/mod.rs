//! VirtIO transport, queue and device logic.
pub mod block;
pub mod error;
pub mod gpu;
pub mod memory;
pub mod mmio;
pub mod queue;
pub mod storage;
