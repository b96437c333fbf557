//! SPI by GPIO bit-banging: the pin levels of each phase of a transfer.
use vstd::prelude::*;
use super::controller::{default_config, SpiBitOrder, SpiConfig, SpiMode};
use super::error::{SpiError, SpiResult};
use crate::drivers::gpio::{GpioController, GpioPin, GpioSpiPins, GpioState};

verus! {

/// The bit of the byte sent at step `bit` (0..8) of a transfer.
pub open spec fn bit_position(order: SpiBitOrder, bit: u8) -> u8 {
    match order {
        SpiBitOrder::MsbFirst => (7 - bit) as u8,
        SpiBitOrder::LsbFirst => bit,
    }
}

/// A bit-banged SPI bus.
pub struct GpioSpi {
    pub gpio: GpioController,
    pub pins: GpioSpiPins,
    pub config: SpiConfig,
    pub initialized: bool,
}

impl GpioSpi {
    pub fn new(gpio_base: usize, pins: GpioSpiPins) -> (s: Self)
        ensures
            s.gpio.base_addr == gpio_base,
            !s.gpio.initialized,
            s.pins == pins,
            s.config == default_config(),
            !s.initialized,
    {
        GpioSpi { gpio: GpioController::new(gpio_base), pins, config: SpiConfig::default(), initialized: false }
    }

    /// Checks a transfer: the bus must be initialized and the two buffers of
    /// equal length.
    pub fn transfer(&self, tx_len: usize, rx_len: usize) -> (r: SpiResult<()>)
        ensures
            !self.initialized ==> r == Err::<(), SpiError>(SpiError::NotInitialized),
            self.initialized && tx_len != rx_len ==> r == Err::<(), SpiError>(SpiError::BufferTooSmall),
            r.is_ok() <==> (self.initialized && tx_len == rx_len),
    {
        if !self.initialized {
            return Err(SpiError::NotInitialized);
        }
        if tx_len != rx_len {
            return Err(SpiError::BufferTooSmall);
        }
        Ok(())
    }

    /// Which bit of the byte is sent at step `bit`.
    pub fn bit_position(&self, bit: u8) -> (p: u8)
        requires
            bit < 8,
        ensures
            p == bit_position(self.config.bit_order, bit),
            p < 8,
    {
        match self.config.bit_order {
            SpiBitOrder::MsbFirst => 7 - bit,
            SpiBitOrder::LsbFirst => bit,
        }
    }

    /// The MOSI level that sends bit `pos` of `tx_byte`.
    pub fn mosi_state(tx_byte: u8, pos: u8) -> (s: GpioState)
        requires
            pos < 8,
        ensures
            s == (if tx_byte & (1u8 << pos) != 0 { GpioState::High } else { GpioState::Low }),
    {
        if (tx_byte & (1u8 << pos)) != 0 { GpioState::High } else { GpioState::Low }
    }

    /// `rx_byte` after sampling MISO at `level` for bit `pos`.
    pub fn sample(rx_byte: u8, pos: u8, level: GpioState) -> (r: u8)
        requires
            pos < 8,
        ensures
            r == (if level == GpioState::High { rx_byte | (1u8 << pos) } else { rx_byte }),
    {
        if level == GpioState::High { rx_byte | (1u8 << pos) } else { rx_byte }
    }

    /// The clock level of the first edge of a bit.
    pub fn clock_edge_1(&self) -> (s: GpioState)
        ensures
            s == (match self.config.mode {
                SpiMode::Mode0 | SpiMode::Mode2 => GpioState::High,
                SpiMode::Mode1 | SpiMode::Mode3 => GpioState::Low,
            }),
    {
        match self.config.mode {
            SpiMode::Mode0 | SpiMode::Mode2 => GpioState::High,
            SpiMode::Mode1 | SpiMode::Mode3 => GpioState::Low,
        }
    }

    /// The clock level of the second edge of a bit.
    pub fn clock_edge_2(&self) -> (s: GpioState)
        ensures
            s == (match self.config.mode {
                SpiMode::Mode0 | SpiMode::Mode2 => GpioState::Low,
                SpiMode::Mode1 | SpiMode::Mode3 => GpioState::High,
            }),
    {
        match self.config.mode {
            SpiMode::Mode0 | SpiMode::Mode2 => GpioState::Low,
            SpiMode::Mode1 | SpiMode::Mode3 => GpioState::High,
        }
    }

    /// The idle clock level: low for CPOL 0 (modes 0 and 1), high otherwise.
    pub fn clock_idle(&self) -> (s: GpioState)
        ensures
            s == (match self.config.mode {
                SpiMode::Mode0 | SpiMode::Mode1 => GpioState::Low,
                SpiMode::Mode2 | SpiMode::Mode3 => GpioState::High,
            }),
    {
        match self.config.mode {
            SpiMode::Mode0 | SpiMode::Mode1 => GpioState::Low,
            SpiMode::Mode2 | SpiMode::Mode3 => GpioState::High,
        }
    }

    /// Busy-wait iterations of half a clock period, assuming a 1 GHz CPU.
    pub fn delay_half_clock(&self) -> (cycles: u32)
        requires
            self.config.clock_rate <= 0x7fff_ffff,
        ensures
            self.config.clock_rate > 0 ==> cycles == 1_000_000_000int / (self.config.clock_rate * 2),
            self.config.clock_rate == 0 ==> cycles == 1000,
    {
        if self.config.clock_rate > 0 {
            1_000_000_000 / (self.config.clock_rate * 2)
        } else {
            1000
        }
    }

    /// The chip-select pin and the level that asserts it.
    pub fn cs_active(&self) -> (r: SpiResult<(GpioPin, GpioState)>)
        ensures
            !self.initialized ==> r == Err::<(GpioPin, GpioState), SpiError>(SpiError::NotInitialized),
            self.initialized ==> r == Ok::<(GpioPin, GpioState), SpiError>((self.pins.cs,
                if self.config.cs_polarity { GpioState::High } else { GpioState::Low })),
    {
        if !self.initialized {
            return Err(SpiError::NotInitialized);
        }
        let cs_state = if self.config.cs_polarity { GpioState::High } else { GpioState::Low };
        Ok((self.pins.cs, cs_state))
    }

    /// The chip-select pin and the level that releases it.
    pub fn cs_inactive(&self) -> (r: SpiResult<(GpioPin, GpioState)>)
        ensures
            !self.initialized ==> r == Err::<(GpioPin, GpioState), SpiError>(SpiError::NotInitialized),
            self.initialized ==> r == Ok::<(GpioPin, GpioState), SpiError>((self.pins.cs,
                if self.config.cs_polarity { GpioState::Low } else { GpioState::High })),
    {
        if !self.initialized {
            return Err(SpiError::NotInitialized);
        }
        let cs_state = if self.config.cs_polarity { GpioState::Low } else { GpioState::High };
        Ok((self.pins.cs, cs_state))
    }
}

} // verus!
