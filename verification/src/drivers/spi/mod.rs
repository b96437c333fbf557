//! SPI: hardware controller and GPIO bit-banging.
pub mod controller;
pub mod error;
pub mod gpio_spi;
