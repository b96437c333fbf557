//! Hardware SPI controller: configuration and chip-select decisions.
use vstd::prelude::*;
use super::error::{SpiError, SpiResult};

verus! {

pub const SPI_CTRL_REG: usize = 0x00;
pub const SPI_STATUS_REG: usize = 0x04;
pub const SPI_DATA_REG: usize = 0x08;
pub const SPI_CTRL_CS_MASK: u32 = 0x8;
pub const SPI_CTRL_CS_SHIFT: u32 = 3;
pub const SPI_STATUS_TRANSFER_COMPLETE: u32 = 1;

/// SPI bus configuration.
#[derive(Debug, Clone, Copy, PartialEq, Eq, Structural)]
pub struct SpiConfig {
    /// Clock frequency in Hz.
    pub clock_rate: u32,
    pub mode: SpiMode,
    pub bit_order: SpiBitOrder,
    /// Chip-select polarity: true when active high.
    pub cs_polarity: bool,
}

/// The default configuration: 400 kHz (safe for SD card initialization),
/// mode 0, MSB first, active-low chip select.
pub open spec fn default_config() -> SpiConfig {
    SpiConfig { clock_rate: 400_000, mode: SpiMode::Mode0, bit_order: SpiBitOrder::MsbFirst, cs_polarity: false }
}

impl SpiConfig {
    pub fn default() -> (c: Self)
        ensures
            c == default_config(),
    {
        SpiConfig { clock_rate: 400_000, mode: SpiMode::Mode0, bit_order: SpiBitOrder::MsbFirst, cs_polarity: false }
    }
}

#[derive(Debug, Clone, Copy, PartialEq, Eq, Structural)]
pub enum SpiMode {
    Mode0,
    Mode1,
    Mode2,
    Mode3,
}

#[derive(Debug, Clone, Copy, PartialEq, Eq, Structural)]
pub enum SpiBitOrder {
    MsbFirst,
    LsbFirst,
}

/// The control register value with the chip-select bit set to `cs`.
pub open spec fn ctrl_with_cs(ctrl: u32, cs: u32) -> u32 {
    (ctrl & !SPI_CTRL_CS_MASK) | (cs << SPI_CTRL_CS_SHIFT)
}

/// A hardware SPI controller.
pub struct SpiController {
    pub base_addr: usize,
    pub config: SpiConfig,
    pub initialized: bool,
}

impl SpiController {
    pub fn new(base_addr: usize) -> (c: Self)
        ensures
            c.base_addr == base_addr,
            c.config == default_config(),
            !c.initialized,
    {
        SpiController { base_addr, config: SpiConfig::default(), initialized: false }
    }

    /// Takes the configuration and probes for a controller; no hardware SPI
    /// controller is known, so this is `DeviceNotFound`.
    pub fn init(&mut self, config: SpiConfig) -> (r: SpiResult<()>)
        ensures
            final(self).config == config,
            final(self).initialized == old(self).initialized,
            r == Err::<(), SpiError>(SpiError::DeviceNotFound),
    {
        self.config = config;
        if !self.detect_hardware() {
            return Err(SpiError::DeviceNotFound);
        }
        self.initialized = true;
        Ok(())
    }

    fn detect_hardware(&self) -> (b: bool)
        ensures
            !b,
    {
        false
    }

    /// Checks a transfer: the controller must be initialized and the two
    /// buffers of equal length.
    pub fn transfer(&self, tx_len: usize, rx_len: usize) -> (r: SpiResult<()>)
        ensures
            !self.initialized ==> r == Err::<(), SpiError>(SpiError::NotInitialized),
            self.initialized && tx_len != rx_len ==> r == Err::<(), SpiError>(SpiError::BufferTooSmall),
            r.is_ok() <==> (self.initialized && tx_len == rx_len),
    {
        if !self.initialized {
            return Err(SpiError::NotInitialized);
        }
        if tx_len != rx_len {
            return Err(SpiError::BufferTooSmall);
        }
        Ok(())
    }

    /// The control register value that asserts chip select, given its current
    /// value.
    pub fn cs_active(&self, ctrl: u32) -> (r: SpiResult<u32>)
        ensures
            !self.initialized ==> r == Err::<u32, SpiError>(SpiError::NotInitialized),
            self.initialized ==> r == Ok::<u32, SpiError>(ctrl_with_cs(ctrl, if self.config.cs_polarity { 1 } else { 0 })),
    {
        if !self.initialized {
            return Err(SpiError::NotInitialized);
        }
        let cs_value: u32 = if self.config.cs_polarity { 1 } else { 0 };
        Ok((ctrl & !SPI_CTRL_CS_MASK) | (cs_value << SPI_CTRL_CS_SHIFT))
    }

    /// The control register value that releases chip select, given its
    /// current value.
    pub fn cs_inactive(&self, ctrl: u32) -> (r: SpiResult<u32>)
        ensures
            !self.initialized ==> r == Err::<u32, SpiError>(SpiError::NotInitialized),
            self.initialized ==> r == Ok::<u32, SpiError>(ctrl_with_cs(ctrl, if self.config.cs_polarity { 0 } else { 1 })),
    {
        if !self.initialized {
            return Err(SpiError::NotInitialized);
        }
        let cs_value: u32 = if self.config.cs_polarity { 0 } else { 1 };
        Ok((ctrl & !SPI_CTRL_CS_MASK) | (cs_value << SPI_CTRL_CS_SHIFT))
    }
}

} // verus!
