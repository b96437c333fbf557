//! Hardware drivers: GPIO, SPI and SD card.
pub mod gpio;
pub mod sdcard;
pub mod spi;
