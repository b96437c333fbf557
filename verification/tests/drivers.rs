use std::collections::{HashMap, VecDeque};

use elinos::drivers::gpio::{GpioController, GpioDirection, GpioPin, GpioSpiPins, GpioState};
use elinos::drivers::sdcard::commands::{SdCommand, SdResponse};
use elinos::drivers::sdcard::device::{get_sdcard_capacity, read_sdcard_blocks, write_sdcard_blocks, SdCardDevice};
use elinos::drivers::sdcard::error::SdCardError;
use elinos::drivers::sdcard::init::{init_step, InitAnswer, InitStage, InitState};
use elinos::drivers::sdcard::protocol::{SdCardState, SdCardType, SpiInterface};
use elinos::drivers::spi::controller::{SpiBitOrder, SpiConfig, SpiController, SpiMode};
use elinos::drivers::spi::error::{SpiError, SpiResult};
use elinos::drivers::spi::gpio_spi::GpioSpi;

/// An SDHC card answering on a simulated SPI bus.
struct SimCard {
    pending: VecDeque<u8>,
    blocks: HashMap<u32, Vec<u8>>,
    writing: Option<u32>,
    idle_on_reset: bool,
    silent: bool,
    always_busy: bool,
    version_1: bool,
    no_csd: bool,
    commands: Vec<u8>,
    /// Every use of the bus: 0 select, 1 release, 2 a transfer of these bytes.
    log: Vec<(u8, Vec<u8>)>,
}

impl SimCard {
    fn new() -> SimCard {
        SimCard {
            pending: VecDeque::new(),
            blocks: HashMap::new(),
            writing: None,
            idle_on_reset: true,
            silent: false,
            always_busy: false,
            version_1: false,
            no_csd: false,
            commands: Vec::new(),
            log: Vec::new(),
        }
    }

    fn answer(&mut self, cmd: u8, arg: u32) {
        self.commands.push(cmd);
        if self.silent {
            return;
        }
        match cmd {
            0 => self.pending.push_back(if self.idle_on_reset { 0x01 } else { 0x00 }),
            8 => self.pending.push_back(if self.version_1 { 0x05 } else { 0x01 }),
            55 => self.pending.push_back(0x01),
            41 => self.pending.push_back(if self.always_busy { 0x01 } else { 0x00 }),
            58 => self.pending.extend([0x00, 0x40, 0xFF, 0x80, 0x00]),
            16 => self.pending.push_back(0x00),
            9 if self.no_csd => self.pending.push_back(0x04),
            9 => {
                // c_size 15: (15 + 1) * 1024 sectors.
                let mut csd = [0u8; 16];
                csd[0] = 0x40;
                csd[9] = 15;
                self.pending.extend([0x00, 0xFE]);
                self.pending.extend(csd);
                self.pending.extend([0xFF, 0xFF]);
            },
            10 => {
                self.pending.extend([0x00, 0xFE]);
                self.pending.extend([7u8; 16]);
                self.pending.extend([0xFF, 0xFF]);
            },
            17 => {
                let data = self.blocks.get(&arg).cloned().unwrap_or_else(|| vec![0u8; 512]);
                self.pending.extend([0x00, 0xFE]);
                self.pending.extend(data);
                self.pending.extend([0xFF, 0xFF]);
            },
            24 => {
                self.pending.push_back(0x00);
                self.writing = Some(arg);
            },
            _ => self.pending.push_back(0x04),
        }
    }
}

impl SpiInterface for SimCard {
    fn transfer(&mut self, tx_data: &[u8], rx_data: &mut [u8]) -> SpiResult<()> {
        self.log.push((2, tx_data.to_vec()));
        if tx_data.len() == 6 && tx_data[0] & 0xC0 == 0x40 {
            let arg = u32::from_be_bytes([tx_data[1], tx_data[2], tx_data[3], tx_data[4]]);
            for b in rx_data.iter_mut() {
                *b = 0xFF;
            }
            self.answer(tx_data[0] & 0x3F, arg);
            return Ok(());
        }
        for b in rx_data.iter_mut() {
            *b = self.pending.pop_front().unwrap_or(0xFF);
        }
        if tx_data.len() == 512 {
            if let Some(addr) = self.writing.take() {
                self.blocks.insert(addr, tx_data.to_vec());
                // CRC bytes, then "data accepted".
                self.pending.extend([0xFF, 0xFF, 0x05]);
            }
        }
        Ok(())
    }

    fn cs_active(&mut self) -> SpiResult<()> {
        self.log.push((0, Vec::new()));
        Ok(())
    }

    fn cs_inactive(&mut self) -> SpiResult<()> {
        self.log.push((1, Vec::new()));
        Ok(())
    }
}

/// A bus whose every transfer fails.
struct BrokenBus;

impl SpiInterface for BrokenBus {
    fn transfer(&mut self, _tx: &[u8], _rx: &mut [u8]) -> SpiResult<()> {
        Err(SpiError::TransferFailed)
    }

    fn cs_active(&mut self) -> SpiResult<()> {
        Ok(())
    }

    fn cs_inactive(&mut self) -> SpiResult<()> {
        Ok(())
    }
}

#[test]
fn command_frames_carry_their_crc() {
    assert_eq!(SdCommand::new(0, 0).to_bytes(), [0x40, 0, 0, 0, 0, 0x95]);
    assert_eq!(SdCommand::new(8, 0x1AA).to_bytes(), [0x48, 0, 0, 0x01, 0xAA, 0x87]);
    assert_eq!(SdCommand::calculate_crc(0, 0), 0x4A);
    assert_eq!(SdCommand::new(17, 0x1234_5678).to_bytes()[1..5], [0x12, 0x34, 0x56, 0x78]);
}

#[test]
fn response_bits() {
    let idle = SdResponse::new(0x01);
    assert!(idle.is_valid() && idle.is_idle() && !idle.has_error());
    let illegal = SdResponse::new(0x05);
    assert!(illegal.has_error());
    assert!(!SdResponse::new(0xFF).is_valid());
    let ocr = SdResponse::with_data(0x00, [0x40, 0, 0, 0]);
    assert_eq!(ocr.length, 5);
    assert_eq!(ocr.data, [0x40, 0, 0, 0]);
}

#[test]
fn sd_card_initialization_and_blocks() {
    let mut card = SdCardDevice::new(SimCard::new());
    let mut buf = [0u8; 512];
    assert_eq!(card.read_block(0, &mut buf), Err(SdCardError::NotInitialized));
    assert_eq!(card.write_block(0, &buf), Err(SdCardError::NotInitialized));
    assert_eq!(card.init(), Ok(()));
    assert!(card.is_initialized());
    assert_eq!(card.protocol.get_state(), SdCardState::Ready);
    assert_eq!(card.protocol.info.card_type, SdCardType::Sdhc);
    assert_eq!(card.protocol.info.ocr, 0x40FF_8000);
    assert_eq!(card.get_capacity(), 16 * 1024);
    assert_eq!(card.protocol.info.cid, [7u8; 16]);
    // An SDHC card gets no block length command.
    assert!(!card.spi.bus.commands.contains(&16));
    assert_eq!(card.spi.bus.commands, vec![0, 8, 55, 41, 58, 9, 10]);
    assert_eq!(card.spi.bus.log.last().unwrap().0, 1);
    let data: Vec<u8> = (0..512).map(|i| (i % 251) as u8).collect();
    assert_eq!(card.write_block(3, &data), Ok(()));
    assert_eq!(card.read_block(3, &mut buf), Ok(()));
    assert_eq!(buf.to_vec(), data);
    let mut two = vec![0u8; 1024];
    assert_eq!(card.read_blocks(2, &mut two), Ok(()));
    assert_eq!(&two[..512], &[0u8; 512][..]);
    assert_eq!(&two[512..], &data[..]);
    assert_eq!(card.read_blocks(2, &mut [0u8; 100]), Err(SdCardError::InvalidSector));
    let pair = vec![9u8; 1024];
    assert_eq!(card.write_blocks(10, &pair), Ok(()));
    assert_eq!(card.spi.bus.blocks[&11], vec![9u8; 512]);
    // The read of block 3 sent CMD17 with the block address and read the
    // 512 bytes after the data token.
    let read3 = SdCommand::new(17, 3).to_bytes().to_vec();
    assert!(card.spi.bus.log.iter().any(|(k, tx)| *k == 2 && *tx == read3));
    let write3 = SdCommand::new(24, 3).to_bytes().to_vec();
    let w = card.spi.bus.log.iter().position(|(k, tx)| *k == 2 && *tx == write3).unwrap();
    let token = card.spi.bus.log[w..].iter().position(|(k, tx)| *k == 2 && *tx == vec![0xFE]).unwrap() + w;
    assert_eq!(card.spi.bus.log[token + 1].1, data);
}

#[test]
fn sd_card_failures() {
    let mut never_idle = SimCard::new();
    never_idle.idle_on_reset = false;
    let mut card = SdCardDevice::new(never_idle);
    assert_eq!(card.init(), Err(SdCardError::InitializationFailed));
    assert_eq!(card.protocol.state, SdCardState::Initializing);
    assert!(!card.is_initialized());
    // Clocks with chip select released, CMD0, one poll answered 0x00 (not
    // idle), chip select released: nothing more.
    let expected: Vec<(u8, Vec<u8>)> = vec![
        (1, vec![]),
        (2, vec![0xFF; 10]),
        (0, vec![]),
        (2, vec![0x40, 0, 0, 0, 0, 0x95]),
        (2, vec![0xFF]),
        (1, vec![]),
    ];
    assert_eq!(card.spi.bus.log, expected);
    // Before initialization no block access touches the bus or the buffer.
    let mut buf = [0xAAu8; 512];
    assert_eq!(card.read_block(7, &mut buf), Err(SdCardError::NotInitialized));
    assert_eq!(card.read_blocks(0, &mut buf), Err(SdCardError::NotInitialized));
    assert_eq!(card.spi.bus.log.len(), 6);
    assert!(buf.iter().all(|&b| b == 0xAA));
    let mut silent = SimCard::new();
    silent.silent = true;
    let mut card = SdCardDevice::new(silent);
    assert_eq!(card.init(), Err(SdCardError::CommandTimeout));
    let mut card = SdCardDevice::new(BrokenBus);
    assert_eq!(card.init(), Err(SdCardError::SpiError));
    let mut none: Option<SdCardDevice<SimCard>> = None;
    assert_eq!(read_sdcard_blocks(&mut none, 0, &mut [0u8; 512]), Err(SdCardError::NotInitialized));
    assert_eq!(write_sdcard_blocks(&mut none, 0, &[0u8; 512]), Err(SdCardError::NotInitialized));
    assert_eq!(get_sdcard_capacity(&none), 0);
}

#[test]
fn card_configurations() {
    let slow = SdCardDevice::<SimCard>::init_config();
    assert_eq!(slow, SpiConfig::default());
    let fast = SdCardDevice::<SimCard>::fast_config();
    assert_eq!(fast.clock_rate, 25_000_000);
    assert_eq!(fast.mode, SpiMode::Mode0);
}

#[test]
fn gpio_register_values() {
    let mut g = GpioController::new(0x1001_2000);
    let pin = GpioPin::new(1, 3);
    assert_eq!(g.set_pin(pin, GpioState::High, 0), Err(SpiError::NotInitialized));
    assert_eq!(g.init(), Ok(()));
    assert_eq!(GpioController::port_reg(pin, 0x08), 0x18);
    assert_eq!(g.set_direction(pin, GpioDirection::Output, 0b1), Ok((0x14, 0b1001)));
    assert_eq!(g.set_direction(pin, GpioDirection::Input, 0b1001), Ok((0x14, 0b1)));
    assert_eq!(g.set_pin(pin, GpioState::High, 0), Ok((0x18, 0b1000)));
    assert_eq!(g.set_pin(pin, GpioState::Low, 0xFF), Ok((0x18, 0xF7)));
    assert_eq!(g.read_pin(pin, 0b1000), Ok(GpioState::High));
    assert_eq!(g.read_pin(pin, 0b0111), Ok(GpioState::Low));
}

#[test]
fn hardware_spi_controller() {
    let mut c = SpiController::new(0x1004_0000);
    assert_eq!(c.transfer(1, 1), Err(SpiError::NotInitialized));
    let config = SpiConfig { clock_rate: 1_000_000, mode: SpiMode::Mode3, bit_order: SpiBitOrder::LsbFirst, cs_polarity: true };
    assert_eq!(c.init(config), Err(SpiError::DeviceNotFound));
    assert_eq!(c.config, config);
    assert_eq!(c.cs_active(0), Err(SpiError::NotInitialized));
    c.initialized = true;
    assert_eq!(c.transfer(2, 3), Err(SpiError::BufferTooSmall));
    assert_eq!(c.transfer(2, 2), Ok(()));
    // Active-high chip select: bit 3 set to assert, cleared to release.
    assert_eq!(c.cs_active(0x1), Ok(0x9));
    assert_eq!(c.cs_inactive(0xF), Ok(0x7));
}

#[test]
fn bit_banged_spi_steps() {
    let pins = GpioSpiPins::new(GpioPin::new(0, 0), GpioPin::new(0, 1), GpioPin::new(0, 2), GpioPin::new(0, 3));
    let mut s = GpioSpi::new(0x1001_2000, pins);
    assert_eq!(s.bit_position(0), 7);
    assert_eq!(s.clock_idle(), GpioState::Low);
    assert_eq!(s.clock_edge_1(), GpioState::High);
    assert_eq!(s.clock_edge_2(), GpioState::Low);
    assert_eq!(s.delay_half_clock(), 1250);
    assert_eq!(GpioSpi::mosi_state(0b1000_0000, 7), GpioState::High);
    assert_eq!(GpioSpi::mosi_state(0b1000_0000, 6), GpioState::Low);
    assert_eq!(GpioSpi::sample(0b0001, 4, GpioState::High), 0b1_0001);
    assert_eq!(GpioSpi::sample(0b0001, 4, GpioState::Low), 0b0001);
    assert_eq!(s.cs_active(), Err(SpiError::NotInitialized));
    s.initialized = true;
    assert_eq!(s.cs_active(), Ok((GpioPin::new(0, 3), GpioState::Low)));
    assert_eq!(s.cs_inactive(), Ok((GpioPin::new(0, 3), GpioState::High)));
    s.config.bit_order = SpiBitOrder::LsbFirst;
    s.config.mode = SpiMode::Mode2;
    assert_eq!(s.bit_position(0), 0);
    assert_eq!(s.clock_idle(), GpioState::High);
    assert_eq!(s.transfer(1, 2), Err(SpiError::BufferTooSmall));
}

#[test]
fn sd_card_initialization_paths() {
    // A card that stays busy: 1000 ACMD41 attempts, then chip select
    // released and the card given up.
    let mut busy = SimCard::new();
    busy.always_busy = true;
    let mut card = SdCardDevice::new(busy);
    assert_eq!(card.init(), Err(SdCardError::InitializationFailed));
    assert_eq!(card.protocol.state, SdCardState::Initializing);
    let cmds = &card.spi.bus.commands;
    assert_eq!(cmds.len(), 2 + 2 * 1000);
    assert_eq!(&cmds[..4], &[0, 8, 55, 41]);
    assert!(cmds[2..].chunks(2).all(|c| c == [55, 41]));
    assert_eq!(card.spi.bus.log.last().unwrap().0, 1);
    // A version 1 card: ACMD41 without the high-capacity bit, a standard
    // capacity card, told the block length with CMD16.
    let mut old = SimCard::new();
    old.version_1 = true;
    let mut card = SdCardDevice::new(old);
    assert_eq!(card.init(), Ok(()));
    assert_eq!(card.protocol.info.card_type, SdCardType::SdscV1);
    assert_eq!(card.spi.bus.commands, vec![0, 8, 55, 41, 58, 9, 10, 16]);
    let acmd41 = SdCommand::new(41, 0).to_bytes().to_vec();
    assert!(card.spi.bus.log.iter().any(|(k, tx)| *k == 2 && *tx == acmd41));
    // A CSD read that fails is skipped: the capacity stays unknown.
    let mut no_csd = SimCard::new();
    no_csd.no_csd = true;
    let mut card = SdCardDevice::new(no_csd);
    assert_eq!(card.init(), Ok(()));
    assert_eq!(card.protocol.info.capacity_sectors, 0);
    assert_eq!(card.protocol.info.card_type, SdCardType::Sdhc);
    assert_eq!(card.protocol.info.cid, [7u8; 16]);
    assert_eq!(card.spi.bus.commands, vec![0, 8, 55, 41, 58, 9, 10]);
}

#[test]
fn initialization_steps() {
    let info = elinos::drivers::sdcard::protocol::SdCardInfo::default();
    let s = InitState::start(info);
    assert_eq!(s.stage, InitStage::Release);
    let s = init_step(&s, &InitAnswer::Bus(true));
    assert_eq!(s.stage, InitStage::Clocks);
    assert_eq!(init_step(&s, &InitAnswer::Bus(false)).outcome, Err(SdCardError::SpiError));
    let s = init_step(&init_step(&s, &InitAnswer::Bus(true)), &InitAnswer::Bus(true));
    assert_eq!(s.stage, InitStage::Cmd0);
    let refused = init_step(&s, &InitAnswer::Response(Ok(SdResponse::new(0x00))));
    assert_eq!(refused.stage, InitStage::Close);
    assert_eq!(refused.outcome, Err(SdCardError::InitializationFailed));
    assert_eq!(init_step(&refused, &InitAnswer::Bus(true)).stage, InitStage::Done);
    assert_eq!(init_step(&refused, &InitAnswer::Bus(true)).outcome, Err(SdCardError::InitializationFailed));
    let s = init_step(&s, &InitAnswer::Response(Ok(SdResponse::new(0x01))));
    assert_eq!(s.stage, InitStage::Cmd8);
    let s = init_step(&s, &InitAnswer::Response(Ok(SdResponse::new(0x01))));
    assert!(s.v2);
    assert_eq!(s.stage, InitStage::Cmd55);
    assert_eq!(init_step(&s, &InitAnswer::Response(Err(SdCardError::CommandTimeout))).outcome, Err(SdCardError::CommandTimeout));
    let s = init_step(&s, &InitAnswer::Response(Ok(SdResponse::new(0x01))));
    assert_eq!(s.stage, InitStage::Acmd41);
    let again = init_step(&s, &InitAnswer::Response(Ok(SdResponse::new(0x01))));
    assert_eq!((again.stage, again.tries), (InitStage::Cmd55, 1));
    let s = init_step(&s, &InitAnswer::Response(Ok(SdResponse::new(0x00))));
    assert_eq!(s.stage, InitStage::Cmd58);
    let s = init_step(&s, &InitAnswer::Response(Ok(SdResponse::with_data(0x00, [0xC0, 0xFF, 0x80, 0x00]))));
    assert_eq!(s.info.ocr, 0xC0FF_8000);
    assert_eq!(s.info.card_type, SdCardType::Sdhc);
    let s = init_step(&s, &InitAnswer::Response(Ok(SdResponse::new(0x00))));
    assert_eq!(s.stage, InitStage::CsdData);
    let mut csd = [0u8; 16];
    csd[9] = 3;
    let s = init_step(&s, &InitAnswer::Data(Ok(csd)));
    assert_eq!(s.info.capacity_sectors, 4 * 1024);
    let s = init_step(&s, &InitAnswer::Response(Err(SdCardError::SpiError)));
    assert_eq!((s.stage, s.outcome), (InitStage::Close, Ok(())));
}
