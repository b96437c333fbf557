//! SD card over SPI: commands, protocol and block device.
pub mod commands;
pub mod device;
pub mod error;
pub mod init;
pub mod protocol;
