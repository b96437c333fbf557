//! GPIO controller: register read-modify-write decisions for pin control.
use vstd::prelude::*;
use super::spi::error::{SpiError, SpiResult};

verus! {

/// Offset of the direction register within a port.
pub const GPIO_DIR_REG: usize = 0x04;
/// Offset of the output register within a port.
pub const GPIO_OUT_REG: usize = 0x08;
/// Offset of the input register within a port.
pub const GPIO_IN_REG: usize = 0x0C;
/// Size of one port's register block.
pub const GPIO_PORT_SIZE: usize = 0x10;

#[derive(Debug, Clone, Copy, PartialEq, Eq, Structural)]
pub struct GpioPin {
    pub port: u8,
    pub pin: u8,
}

impl GpioPin {
    pub fn new(port: u8, pin: u8) -> (p: Self)
        ensures
            p == (GpioPin { port, pin }),
    {
        GpioPin { port, pin }
    }
}

#[derive(Debug, Clone, Copy, PartialEq, Eq, Structural)]
pub enum GpioDirection {
    Input,
    Output,
}

#[derive(Debug, Clone, Copy, PartialEq, Eq, Structural)]
pub enum GpioState {
    Low,
    High,
}

/// `reg` with bit `bit` set or cleared.
pub open spec fn with_bit(reg: u32, bit: u8, set: bool) -> u32 {
    if set { reg | (1u32 << bit) } else { reg & !(1u32 << bit) }
}

/// The offset of register `reg` of the port of `pin`.
pub open spec fn reg_offset(pin: GpioPin, reg: usize) -> usize {
    (pin.port * GPIO_PORT_SIZE + reg) as usize
}

/// A GPIO controller at an MMIO base address.
pub struct GpioController {
    pub base_addr: usize,
    pub initialized: bool,
}

impl GpioController {
    pub fn new(base_addr: usize) -> (c: Self)
        ensures
            c.base_addr == base_addr,
            !c.initialized,
    {
        GpioController { base_addr, initialized: false }
    }

    /// Initializes the controller; GPIO is assumed present on every board.
    pub fn init(&mut self) -> (r: SpiResult<()>)
        ensures
            r.is_ok(),
            final(self).initialized,
            final(self).base_addr == old(self).base_addr,
    {
        if !self.detect_hardware() {
            return Err(SpiError::DeviceNotFound);
        }
        self.initialized = true;
        Ok(())
    }

    fn detect_hardware(&self) -> (b: bool)
        ensures
            b,
    {
        true
    }

    /// Offset of register `reg` of the port of `pin`.
    pub fn port_reg(pin: GpioPin, reg: usize) -> (off: usize)
        requires
            reg < GPIO_PORT_SIZE,
        ensures
            off == reg_offset(pin, reg),
    {
        (pin.port as usize) * GPIO_PORT_SIZE + reg
    }

    /// The direction register write that configures `pin`, given the
    /// register's current value: (offset, new value).
    pub fn set_direction(&self, pin: GpioPin, direction: GpioDirection, current_dir: u32) -> (r: SpiResult<(usize, u32)>)
        requires
            pin.pin < 32,
        ensures
            !self.initialized ==> r == Err::<(usize, u32), SpiError>(SpiError::NotInitialized),
            self.initialized ==> r == Ok::<(usize, u32), SpiError>((reg_offset(pin, GPIO_DIR_REG),
                with_bit(current_dir, pin.pin, direction == GpioDirection::Output))),
    {
        if !self.initialized {
            return Err(SpiError::NotInitialized);
        }
        let off = Self::port_reg(pin, GPIO_DIR_REG);
        let new_dir = match direction {
            GpioDirection::Input => current_dir & !(1u32 << pin.pin),
            GpioDirection::Output => current_dir | (1u32 << pin.pin),
        };
        Ok((off, new_dir))
    }

    /// The output register write that drives `pin` to `state`, given the
    /// register's current value: (offset, new value).
    pub fn set_pin(&self, pin: GpioPin, state: GpioState, current_output: u32) -> (r: SpiResult<(usize, u32)>)
        requires
            pin.pin < 32,
        ensures
            !self.initialized ==> r == Err::<(usize, u32), SpiError>(SpiError::NotInitialized),
            self.initialized ==> r == Ok::<(usize, u32), SpiError>((reg_offset(pin, GPIO_OUT_REG),
                with_bit(current_output, pin.pin, state == GpioState::High))),
    {
        if !self.initialized {
            return Err(SpiError::NotInitialized);
        }
        let off = Self::port_reg(pin, GPIO_OUT_REG);
        let new_output = match state {
            GpioState::Low => current_output & !(1u32 << pin.pin),
            GpioState::High => current_output | (1u32 << pin.pin),
        };
        Ok((off, new_output))
    }

    /// The state of `pin` in the value of its port's input register.
    pub fn read_pin(&self, pin: GpioPin, input_reg: u32) -> (r: SpiResult<GpioState>)
        requires
            pin.pin < 32,
        ensures
            !self.initialized ==> r == Err::<GpioState, SpiError>(SpiError::NotInitialized),
            self.initialized ==> r == Ok::<GpioState, SpiError>(
                if input_reg & (1u32 << pin.pin) != 0 { GpioState::High } else { GpioState::Low }),
    {
        if !self.initialized {
            return Err(SpiError::NotInitialized);
        }
        if (input_reg & (1u32 << pin.pin)) != 0 {
            Ok(GpioState::High)
        } else {
            Ok(GpioState::Low)
        }
    }
}

/// The four pins of a bit-banged SPI bus.
#[derive(Debug, Clone, Copy, PartialEq, Eq, Structural)]
pub struct GpioSpiPins {
    pub sclk: GpioPin,
    pub mosi: GpioPin,
    pub miso: GpioPin,
    pub cs: GpioPin,
}

impl GpioSpiPins {
    pub fn new(sclk: GpioPin, mosi: GpioPin, miso: GpioPin, cs: GpioPin) -> (p: Self)
        ensures
            p == (GpioSpiPins { sclk, mosi, miso, cs }),
    {
        GpioSpiPins { sclk, mosi, miso, cs }
    }
}

} // verus!
