//! The ext2 filesystem's on-disk structures and its block bookkeeping.
pub mod bitmap;
pub mod block;
pub mod structures;
