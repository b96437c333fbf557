//! Memory management: the mapping registry and the slab allocator's slabs.
pub mod layout;
pub mod mapping;
pub mod slab;
