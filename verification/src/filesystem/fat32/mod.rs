//! FAT32: the boot sector, the file allocation table, 8.3 names and
//! directory clusters.
pub mod boot;
pub mod table;
pub mod names;
pub mod dir;
pub mod volume;
