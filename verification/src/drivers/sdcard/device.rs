//! SD card block device over an SPI bus.
use vstd::prelude::*;
use super::commands::{
    SdCommand, SdResponse, CMD17_READ_SINGLE_BLOCK, CMD24_WRITE_BLOCK, DATA_RESPONSE_ACCEPTED,
    DATA_RESPONSE_MASK, DATA_START_TOKEN,
};
use super::error::{SdCardError, SdCardResult};
use super::init::{init_transcript, run_state, start_state, InitStage};
use super::protocol::{spi_err, SdCardProtocol, SdCardState, SpiInterface, TracedBus};
use crate::drivers::spi::controller::{SpiBitOrder, SpiConfig, SpiMode};

verus! {

/// SPI configuration of card initialization: 400 kHz, mode 0, MSB first,
/// active-low chip select.
pub open spec fn init_config() -> SpiConfig {
    SpiConfig { clock_rate: 400_000, mode: SpiMode::Mode0, bit_order: SpiBitOrder::MsbFirst, cs_polarity: false }
}

/// SPI configuration after initialization: the same at 25 MHz.
pub open spec fn fast_config() -> SpiConfig {
    SpiConfig { clock_rate: 25_000_000, ..init_config() }
}

/// An SD card on an SPI bus.
pub struct SdCardDevice<S: SpiInterface> {
    pub protocol: SdCardProtocol,
    /// The bus, with the record of the driver's uses of it.
    pub spi: TracedBus<S>,
    pub initialized: bool,
}

impl<S: SpiInterface> SdCardDevice<S> {
    /// A device over a bus that the caller has configured with `init_config`.
    pub fn new(spi: S) -> (d: Self)
        ensures
            d.protocol.state == SdCardState::Uninitialized,
            !d.initialized,
    {
        SdCardDevice { protocol: SdCardProtocol::new(), spi: TracedBus::new(spi), initialized: false }
    }

    /// The bus configuration of initialization.
    pub fn init_config() -> (c: SpiConfig)
        ensures
            c == init_config(),
    {
        SpiConfig { clock_rate: 400_000, mode: SpiMode::Mode0, bit_order: SpiBitOrder::MsbFirst, cs_polarity: false }
    }

    /// The bus configuration once the card is initialized.
    pub fn fast_config() -> (c: SpiConfig)
        ensures
            c == fast_config(),
    {
        SpiConfig { clock_rate: 25_000_000, mode: SpiMode::Mode0, bit_order: SpiBitOrder::MsbFirst, cs_polarity: false }
    }

    /// Runs the card initialization protocol (see `SdCardProtocol::init`,
    /// whose contract this one repeats); on success the device is
    /// initialized and the bus may switch to `fast_config`.
    pub fn init(&mut self) -> (r: SdCardResult<()>)
        ensures
            r.is_ok() ==> final(self).initialized && final(self).protocol.state == SdCardState::Ready,
            r.is_err() ==> final(self).initialized == old(self).initialized
                && final(self).protocol.state == SdCardState::Initializing,
            final(self).spi.bus_log().take(old(self).spi.bus_log().len() as int) == old(self).spi.bus_log(),
            final(self).spi.bus_oks().take(old(self).spi.bus_log().len() as int) == old(self).spi.bus_oks(),
            init_transcript(
                start_state(old(self).protocol.info),
                final(self).protocol.init_answers(),
                final(self).protocol.init_cuts(),
                final(self).spi.bus_log().skip(old(self).spi.bus_log().len() as int),
                final(self).spi.bus_oks().skip(old(self).spi.bus_log().len() as int),
            ),
            run_state(start_state(old(self).protocol.info), final(self).protocol.init_answers()).stage == InitStage::Done,
            r == run_state(start_state(old(self).protocol.info), final(self).protocol.init_answers()).outcome,
            final(self).protocol.info == run_state(start_state(old(self).protocol.info), final(self).protocol.init_answers()).info,
    {
        self.protocol.init(&mut self.spi)?;
        self.initialized = true;
        Ok(())
    }

    /// Reads block `block_addr` into `buffer` (512 bytes) with CMD17: chip
    /// select asserted, the command, up to 1000 polls for the data start
    /// token, the 512 data bytes read into `buffer`, two CRC bytes, chip
    /// select released. Before the card is ready nothing goes on the bus, and
    /// `buffer` is only written by the data transfer.
    pub fn read_block(&mut self, block_addr: u32, buffer: &mut [u8]) -> (r: SdCardResult<()>)
        requires
            old(buffer)@.len() == 512,
        ensures
            final(buffer)@.len() == 512,
            final(self).initialized == old(self).initialized,
            final(self).protocol == old(self).protocol,
            super::protocol::extends(old(self).spi.bus_log(), final(self).spi.bus_log()),
            !old(self).initialized ==> r == Err::<(), SdCardError>(SdCardError::NotInitialized),
            old(self).initialized && old(self).protocol.state != SdCardState::Ready
                ==> r == Err::<(), SdCardError>(SdCardError::InitializationFailed),
            !(old(self).initialized && old(self).protocol.state == SdCardState::Ready)
                ==> final(self).spi.bus_log() == old(self).spi.bus_log() && final(buffer)@ == old(buffer)@,
            r is Err && r != Err::<(), SdCardError>(SdCardError::SpiError) ==> final(buffer)@ == old(buffer)@,
            r.is_ok() ==> old(self).initialized && old(self).protocol.state == SdCardState::Ready,
            r.is_ok() ==> {
                let ops = final(self).spi.bus_log().skip(old(self).spi.bus_log().len() as int);
                &&& ops.len() >= 6
                &&& ops[0] == super::protocol::select_op()
                &&& ops[1].0 == 2 && ops[1].1 == super::protocol::frame_of(CMD17_READ_SINGLE_BLOCK, block_addr)
                &&& ops[ops.len() - 3] == super::protocol::transfer_op(Seq::new(512, |i: int| 0xFFu8), final(buffer)@)
                &&& ops[ops.len() - 4].1 == seq![DATA_START_TOKEN] || ops[ops.len() - 4].2 == seq![DATA_START_TOKEN]
                &&& ops[ops.len() - 2].1 == seq![0xFFu8, 0xFF]
                &&& ops.last() == super::protocol::release_op()
                &&& super::protocol::frames_sent(final(self).spi.bus_log()) == super::protocol::frames_sent(old(self).spi.bus_log()).push(
                    super::protocol::frame_of(CMD17_READ_SINGLE_BLOCK, block_addr))
            },
    {
        let ghost start = self.spi.bus_log();
        proof {
            assert(start.take(start.len() as int) =~= start);
        }
        if !self.initialized {
            return Err(SdCardError::NotInitialized);
        }
        if !self.protocol.is_ready() {
            return Err(SdCardError::InitializationFailed);
        }
        let selected = self.spi.cs_active();
        proof {
            assert(self.spi.bus_log().take(start.len() as int) =~= start);
            super::protocol::lemma_no_frames(start, self.spi.bus_log());
        }
        spi_err(selected)?;
        let ghost log1 = self.spi.bus_log();
        let sent = self.protocol.send_command(&mut self.spi, SdCommand::new(CMD17_READ_SINGLE_BLOCK, block_addr));
        let ghost log2 = self.spi.bus_log();
        proof {
            super::protocol::lemma_frame_of_start(CMD17_READ_SINGLE_BLOCK, block_addr);
            assert(log2.skip(log1.len() as int)[0] == log2[log1.len() as int]);
            super::protocol::lemma_one_frame(log1, log2, super::protocol::frame_of(CMD17_READ_SINGLE_BLOCK, block_addr));
            super::protocol::lemma_extends(start, log1, log2);
        }
        let response = sent?;
        if response.has_error() {
            let rel = self.spi.cs_inactive();
            proof {
                assert(self.spi.bus_log().take(log2.len() as int) =~= log2);
                super::protocol::lemma_extends(start, log2, self.spi.bus_log());
            }
            spi_err(rel)?;
            return Err(SdCardError::ReadError);
        }
        let mut token: u8 = 0xFF;
        let mut timeout: u32 = 1000;
        proof {
            assert(log2.take(log2.len() as int) =~= log2);
        }
        while timeout > 0 && token != DATA_START_TOKEN
            invariant
                buffer@.len() == 512,
                buffer@ == old(buffer)@,
                old(self).initialized,
                old(self).protocol.state == SdCardState::Ready,
                self.initialized == old(self).initialized,
                self.protocol == old(self).protocol,
                start == old(self).spi.bus_log(),
                super::protocol::extends(log2, self.spi.bus_log()),
                super::protocol::extends(start, log2),
                super::protocol::frames_sent(self.spi.bus_log()) == super::protocol::frames_sent(log2),
                timeout <= 1000,
                timeout == 1000 ==> token == 0xFF && self.spi.bus_log() == log2,
                timeout < 1000 ==> self.spi.bus_log().len() > log2.len() && self.spi.bus_log().last().2 == seq![token],
            decreases timeout,
        {
            let ghost before = self.spi.bus_log();
            let tx = [0xFFu8; 1];
            let mut rx = [0u8; 1];
            let polled = self.spi.transfer(&tx, &mut rx);
            proof {
                assert(self.spi.bus_log().take(before.len() as int) =~= before);
                super::protocol::lemma_extends(log2, before, self.spi.bus_log());
                super::protocol::lemma_extends(start, log2, self.spi.bus_log());
                assert(tx@ =~= seq![0xFFu8]);
                super::protocol::lemma_no_frames(before, self.spi.bus_log());
            }
            spi_err(polled)?;
            token = rx[0];
            proof {
                assert(rx@ =~= seq![token]);
            }
            timeout = timeout - 1;
        }
        let ghost log3 = self.spi.bus_log();
        proof {
            super::protocol::lemma_extends(start, log2, log3);
        }
        if token != DATA_START_TOKEN {
            let rel = self.spi.cs_inactive();
            proof {
                assert(self.spi.bus_log().take(log3.len() as int) =~= log3);
                super::protocol::lemma_extends(start, log3, self.spi.bus_log());
            }
            spi_err(rel)?;
            return Err(SdCardError::ReadError);
        }
        let tx = [0xFFu8; 512];
        let got = self.spi.transfer(&tx, buffer);
        let ghost log4 = self.spi.bus_log();
        proof {
            assert(tx@ =~= Seq::new(512, |i: int| 0xFFu8));
            assert(log4.take(log3.len() as int) =~= log3);
            super::protocol::lemma_extends(start, log3, log4);
            super::protocol::lemma_no_frames(log3, log4);
        }
        spi_err(got)?;
        let tx_crc = [0xFFu8; 2];
        let mut rx_crc = [0u8; 2];
        let crc = self.spi.transfer(&tx_crc, &mut rx_crc);
        let ghost log5 = self.spi.bus_log();
        proof {
            assert(tx_crc@ =~= seq![0xFFu8, 0xFF]);
            assert(log5.take(log4.len() as int) =~= log4);
            super::protocol::lemma_extends(start, log4, log5);
            super::protocol::lemma_no_frames(log4, log5);
        }
        spi_err(crc)?;
        let rel = self.spi.cs_inactive();
        proof {
            assert(self.spi.bus_log().take(log5.len() as int) =~= log5);
            super::protocol::lemma_extends(start, log5, self.spi.bus_log());
            super::protocol::lemma_no_frames(log5, self.spi.bus_log());
            let ops = self.spi.bus_log().skip(start.len() as int);
            let n = ops.len();
            assert(ops[0] == log1[start.len() as int]);
            assert(ops[1] == log2[log1.len() as int]);
            assert(ops[n - 3] == log4.last());
            assert(ops[n - 2] == log5.last());
            assert(log3.len() > log2.len());
            assert(log2.len() > log1.len() + 1);
            assert(ops[n - 4] == log3.last());
            assert(ops[n - 4].2 == seq![DATA_START_TOKEN]);
            assert(ops[n - 3] == log4.last());
            assert(ops.last() == super::protocol::release_op());
            assert(n >= 6);
        }
        spi_err(rel)?;
        Ok(())
    }

    /// Writes `buffer` (512 bytes) to block `block_addr` with CMD24: chip
    /// select asserted, the command, the data start token, the 512 bytes, two
    /// CRC bytes; the card must accept the data and finish programming
    /// within 10000 polls. Before the card is ready nothing goes on the bus.
    pub fn write_block(&mut self, block_addr: u32, buffer: &[u8]) -> (r: SdCardResult<()>)
        requires
            buffer@.len() == 512,
        ensures
            final(self).initialized == old(self).initialized,
            final(self).protocol == old(self).protocol,
            super::protocol::extends(old(self).spi.bus_log(), final(self).spi.bus_log()),
            !old(self).initialized ==> r == Err::<(), SdCardError>(SdCardError::NotInitialized),
            old(self).initialized && old(self).protocol.state != SdCardState::Ready
                ==> r == Err::<(), SdCardError>(SdCardError::InitializationFailed),
            !(old(self).initialized && old(self).protocol.state == SdCardState::Ready)
                ==> final(self).spi.bus_log() == old(self).spi.bus_log(),
            r.is_ok() ==> old(self).initialized && old(self).protocol.state == SdCardState::Ready,
            r.is_ok() ==> {
                let ops = final(self).spi.bus_log().skip(old(self).spi.bus_log().len() as int);
                &&& ops[0] == super::protocol::select_op()
                &&& ops[1].0 == 2 && ops[1].1 == super::protocol::frame_of(CMD24_WRITE_BLOCK, block_addr)
                &&& exists|j: int| 1 < j && j + 3 < ops.len()
                    && #[trigger] ops[j] == super::protocol::transfer_op(seq![DATA_START_TOKEN], ops[j].2)
                    && ops[j + 1] == super::protocol::transfer_op(buffer@, ops[j + 1].2)
                    && ops[j + 2].1 == seq![0xFFu8, 0xFF]
                &&& ops.last() == super::protocol::release_op()
                &&& super::protocol::frames_sent(final(self).spi.bus_log()) == super::protocol::frames_sent(old(self).spi.bus_log()).push(
                    super::protocol::frame_of(CMD24_WRITE_BLOCK, block_addr))
            },
    {
        let ghost start = self.spi.bus_log();
        proof {
            assert(start.take(start.len() as int) =~= start);
        }
        if !self.initialized {
            return Err(SdCardError::NotInitialized);
        }
        if !self.protocol.is_ready() {
            return Err(SdCardError::InitializationFailed);
        }
        let selected = self.spi.cs_active();
        proof {
            assert(self.spi.bus_log().take(start.len() as int) =~= start);
            super::protocol::lemma_no_frames(start, self.spi.bus_log());
        }
        spi_err(selected)?;
        let ghost log1 = self.spi.bus_log();
        let sent = self.protocol.send_command(&mut self.spi, SdCommand::new(CMD24_WRITE_BLOCK, block_addr));
        let ghost log2 = self.spi.bus_log();
        proof {
            super::protocol::lemma_frame_of_start(CMD24_WRITE_BLOCK, block_addr);
            assert(log2.skip(log1.len() as int)[0] == log2[log1.len() as int]);
            super::protocol::lemma_one_frame(log1, log2, super::protocol::frame_of(CMD24_WRITE_BLOCK, block_addr));
            super::protocol::lemma_extends(start, log1, log2);
        }
        let response = sent?;
        if response.has_error() {
            let rel = self.spi.cs_inactive();
            proof {
                assert(self.spi.bus_log().take(log2.len() as int) =~= log2);
                super::protocol::lemma_extends(start, log2, self.spi.bus_log());
            }
            spi_err(rel)?;
            return Err(SdCardError::WriteError);
        }
        let tx_token = [DATA_START_TOKEN; 1];
        let mut rx_token = [0u8; 1];
        let t = self.spi.transfer(&tx_token, &mut rx_token);
        let ghost log3 = self.spi.bus_log();
        proof {
            assert(tx_token@ =~= seq![DATA_START_TOKEN]);
            assert(log3.take(log2.len() as int) =~= log2);
            super::protocol::lemma_extends(start, log2, log3);
            assert(DATA_START_TOKEN & 0xC0 != 0x40) by (bit_vector);
            super::protocol::lemma_no_frames(log2, log3);
        }
        spi_err(t)?;
        let mut rx_data = [0u8; 512];
        let d = self.spi.transfer(buffer, &mut rx_data);
        let ghost log4 = self.spi.bus_log();
        proof {
            assert(log4.take(log3.len() as int) =~= log3);
            super::protocol::lemma_extends(start, log3, log4);
            super::protocol::lemma_no_frames(log3, log4);
        }
        spi_err(d)?;
        let tx_crc = [0xFFu8; 2];
        let mut rx_crc = [0u8; 2];
        let c = self.spi.transfer(&tx_crc, &mut rx_crc);
        let ghost log5 = self.spi.bus_log();
        proof {
            assert(tx_crc@ =~= seq![0xFFu8, 0xFF]);
            assert(log5.take(log4.len() as int) =~= log4);
            super::protocol::lemma_extends(start, log4, log5);
            super::protocol::lemma_no_frames(log4, log5);
        }
        spi_err(c)?;
        let tx_resp = [0xFFu8; 1];
        let mut rx_resp = [0u8; 1];
        let dr = self.spi.transfer(&tx_resp, &mut rx_resp);
        let ghost log6 = self.spi.bus_log();
        proof {
            assert(log6.take(log5.len() as int) =~= log5);
            super::protocol::lemma_extends(start, log5, log6);
            super::protocol::lemma_no_frames(log5, log6);
        }
        spi_err(dr)?;
        let data_response = rx_resp[0] & DATA_RESPONSE_MASK;
        if data_response != DATA_RESPONSE_ACCEPTED {
            let rel = self.spi.cs_inactive();
            proof {
                assert(self.spi.bus_log().take(log6.len() as int) =~= log6);
                super::protocol::lemma_extends(start, log6, self.spi.bus_log());
            }
            spi_err(rel)?;
            return Err(SdCardError::WriteError);
        }
        let mut busy: u8 = 0;
        let mut timeout: u32 = 10000;
        proof {
            assert(log6.take(log6.len() as int) =~= log6);
        }
        while timeout > 0 && busy == 0
            invariant
                old(self).initialized,
                old(self).protocol.state == SdCardState::Ready,
                self.initialized == old(self).initialized,
                self.protocol == old(self).protocol,
                start == old(self).spi.bus_log(),
                super::protocol::extends(log6, self.spi.bus_log()),
                super::protocol::extends(start, log6),
                super::protocol::frames_sent(self.spi.bus_log()) == super::protocol::frames_sent(log6),
            decreases timeout,
        {
            let ghost before = self.spi.bus_log();
            let tx = [0xFFu8; 1];
            let mut rx = [0u8; 1];
            let polled = self.spi.transfer(&tx, &mut rx);
            proof {
                assert(self.spi.bus_log().take(before.len() as int) =~= before);
                super::protocol::lemma_extends(log6, before, self.spi.bus_log());
                super::protocol::lemma_extends(start, log6, self.spi.bus_log());
                super::protocol::lemma_no_frames(before, self.spi.bus_log());
            }
            spi_err(polled)?;
            busy = rx[0];
            timeout = timeout - 1;
        }
        let ghost log7 = self.spi.bus_log();
        proof {
            super::protocol::lemma_extends(start, log6, log7);
        }
        if busy == 0 {
            let rel = self.spi.cs_inactive();
            proof {
                assert(self.spi.bus_log().take(log7.len() as int) =~= log7);
                super::protocol::lemma_extends(start, log7, self.spi.bus_log());
            }
            spi_err(rel)?;
            return Err(SdCardError::WriteError);
        }
        let rel = self.spi.cs_inactive();
        proof {
            assert(self.spi.bus_log().take(log7.len() as int) =~= log7);
            super::protocol::lemma_extends(start, log7, self.spi.bus_log());
            super::protocol::lemma_no_frames(log7, self.spi.bus_log());
            let ops = self.spi.bus_log().skip(start.len() as int);
            let j = log2.len() - start.len();
            assert(ops[0] == log1[start.len() as int]);
            assert(ops[1] == log2[log1.len() as int]);
            let fin = self.spi.bus_log();
            super::protocol::lemma_extends(log5, log6, log7);
            super::protocol::lemma_extends(log5, log7, fin);
            super::protocol::lemma_extends(log4, log5, fin);
            super::protocol::lemma_extends(log3, log4, fin);
            assert(ops[j] == log3.last());
            assert(ops[j + 1] == log4.last());
            assert(ops[j + 2] == log5.last());
        }
        spi_err(rel)?;
        Ok(())
    }

    /// Reads consecutive blocks from `start_block` into `buffer`, whose length
    /// must be a multiple of 512, one `read_block` after the other. A refused
    /// length or an uninitialized card leaves `buffer` and the bus alone.
    pub fn read_blocks(&mut self, start_block: u32, buffer: &mut [u8]) -> (r: SdCardResult<()>)
        requires
            start_block + old(buffer)@.len() / 512 <= u32::MAX,
        ensures
            final(buffer)@.len() == old(buffer)@.len(),
            super::protocol::extends(old(self).spi.bus_log(), final(self).spi.bus_log()),
            old(buffer)@.len() % 512 != 0 || !old(self).initialized
                ==> final(buffer)@ == old(buffer)@ && final(self).spi.bus_log() == old(self).spi.bus_log(),
            r is Ok ==> super::protocol::frames_sent(final(self).spi.bus_log()) == super::protocol::frames_sent(
                old(self).spi.bus_log(),
            ) + Seq::new((old(buffer)@.len() / 512) as nat, |i: int| super::protocol::frame_of(CMD17_READ_SINGLE_BLOCK, (start_block + i) as u32)),
            final(self).initialized == old(self).initialized,
            final(self).protocol == old(self).protocol,
            old(buffer)@.len() % 512 != 0 ==> r == Err::<(), SdCardError>(SdCardError::InvalidSector),
            old(buffer)@.len() % 512 == 0 && old(buffer)@.len() > 0 && !old(self).initialized
                ==> r == Err::<(), SdCardError>(SdCardError::NotInitialized),
            old(buffer)@.len() == 0 ==> r.is_ok(),
    {
        let ghost start = self.spi.bus_log();
        proof {
            assert(start.take(start.len() as int) =~= start);
        }
        let len = buffer.len();
        if len % 512 != 0 {
            return Err(SdCardError::InvalidSector);
        }
        let block_count = len / 512;
        let mut i: usize = 0;
        while i < block_count
            invariant
                buffer@.len() == len,
                len == old(buffer)@.len(),
                start == old(self).spi.bus_log(),
                super::protocol::extends(start, self.spi.bus_log()),
                i == 0 ==> buffer@ == old(buffer)@ && self.spi.bus_log() == start,
                super::protocol::frames_sent(self.spi.bus_log()) == super::protocol::frames_sent(start) + Seq::new(
                    i as nat,
                    |k: int| super::protocol::frame_of(CMD17_READ_SINGLE_BLOCK, (start_block + k) as u32),
                ),
                len % 512 == 0,
                block_count == len / 512,
                start_block + block_count <= u32::MAX,
                0 <= i <= block_count,
                self.initialized == old(self).initialized,
                self.protocol == old(self).protocol,
                i > 0 ==> self.initialized,
            decreases block_count - i,
        {
            let mut block = [0u8; 512];
            let ghost before = self.spi.bus_log();
            let got = self.read_block(start_block + i as u32, &mut block);
            proof {
                super::protocol::lemma_extends(start, before, self.spi.bus_log());
            }
            got?;
            proof {
                let f = |k: int| super::protocol::frame_of(CMD17_READ_SINGLE_BLOCK, (start_block + k) as u32);
                assert(Seq::new((i + 1) as nat, f) =~= Seq::new(i as nat, f).push(f(i as int)));
                assert(super::protocol::frames_sent(start) + Seq::new((i + 1) as nat, f) =~= (super::protocol::frames_sent(start)
                    + Seq::new(i as nat, f)).push(f(i as int)));
            }
            let offset = i * 512;
            proof {
                assert(offset + 512 <= len) by (nonlinear_arith) requires i < block_count, block_count == len / 512, offset == i * 512;
            }
            let mut k: usize = 0;
            while k < 512
                invariant
                    buffer@.len() == len,
                    offset + 512 <= len,
                    block@.len() == 512,
                    0 <= k <= 512,
                decreases 512 - k,
            {
                buffer[offset + k] = block[k];
                k = k + 1;
            }
            i = i + 1;
        }
        Ok(())
    }

    /// Writes `buffer`, whose length must be a multiple of 512, to
    /// consecutive blocks from `start_block`, one `write_block` after the
    /// other. A refused length or an uninitialized card leaves the bus alone.
    pub fn write_blocks(&mut self, start_block: u32, buffer: &[u8]) -> (r: SdCardResult<()>)
        requires
            start_block + buffer@.len() / 512 <= u32::MAX,
        ensures
            super::protocol::extends(old(self).spi.bus_log(), final(self).spi.bus_log()),
            buffer@.len() % 512 != 0 || !old(self).initialized ==> final(self).spi.bus_log() == old(self).spi.bus_log(),
            r is Ok ==> super::protocol::frames_sent(final(self).spi.bus_log()) == super::protocol::frames_sent(
                old(self).spi.bus_log(),
            ) + Seq::new((buffer@.len() / 512) as nat, |i: int| super::protocol::frame_of(CMD24_WRITE_BLOCK, (start_block + i) as u32)),
            final(self).initialized == old(self).initialized,
            final(self).protocol == old(self).protocol,
            buffer@.len() % 512 != 0 ==> r == Err::<(), SdCardError>(SdCardError::InvalidSector),
            buffer@.len() % 512 == 0 && buffer@.len() > 0 && !old(self).initialized
                ==> r == Err::<(), SdCardError>(SdCardError::NotInitialized),
            buffer@.len() == 0 ==> r.is_ok(),
    {
        let ghost start = self.spi.bus_log();
        proof {
            assert(start.take(start.len() as int) =~= start);
        }
        let len = buffer.len();
        if len % 512 != 0 {
            return Err(SdCardError::InvalidSector);
        }
        let block_count = len / 512;
        let mut i: usize = 0;
        while i < block_count
            invariant
                buffer@.len() == len,
                start == old(self).spi.bus_log(),
                super::protocol::extends(start, self.spi.bus_log()),
                i == 0 ==> self.spi.bus_log() == start,
                super::protocol::frames_sent(self.spi.bus_log()) == super::protocol::frames_sent(start) + Seq::new(
                    i as nat,
                    |k: int| super::protocol::frame_of(CMD24_WRITE_BLOCK, (start_block + k) as u32),
                ),
                len % 512 == 0,
                block_count == len / 512,
                start_block + block_count <= u32::MAX,
                0 <= i <= block_count,
                self.initialized == old(self).initialized,
                self.protocol == old(self).protocol,
                i > 0 ==> self.initialized,
            decreases block_count - i,
        {
            let offset = i * 512;
            proof {
                assert(offset + 512 <= len) by (nonlinear_arith) requires i < block_count, block_count == len / 512, offset == i * 512;
            }
            let mut block: Vec<u8> = Vec::new();
            let mut k: usize = 0;
            while k < 512
                invariant
                    buffer@.len() == len,
                    offset + 512 <= len,
                    block@.len() == k,
                    0 <= k <= 512,
                decreases 512 - k,
            {
                block.push(buffer[offset + k]);
                k = k + 1;
            }
            let ghost before = self.spi.bus_log();
            let put = self.write_block(start_block + i as u32, block.as_slice());
            proof {
                super::protocol::lemma_extends(start, before, self.spi.bus_log());
            }
            put?;
            proof {
                let f = |k: int| super::protocol::frame_of(CMD24_WRITE_BLOCK, (start_block + k) as u32);
                assert(Seq::new((i + 1) as nat, f) =~= Seq::new(i as nat, f).push(f(i as int)));
                assert(super::protocol::frames_sent(start) + Seq::new((i + 1) as nat, f) =~= (super::protocol::frames_sent(start)
                    + Seq::new(i as nat, f)).push(f(i as int)));
            }
            i = i + 1;
        }
        Ok(())
    }

    /// Capacity in sectors as read from the CSD.
    pub fn get_capacity(&self) -> (c: u32)
        ensures
            c == self.protocol.info.capacity_sectors,
    {
        self.protocol.get_info().capacity_sectors
    }

    /// Initialized, with the card ready.
    pub fn is_initialized(&self) -> (b: bool)
        ensures
            b == (self.initialized && self.protocol.state == SdCardState::Ready),
    {
        self.initialized && self.protocol.is_ready()
    }
}

/// Reads blocks from the card, if there is one.
pub fn read_sdcard_blocks<S: SpiInterface>(card: &mut Option<SdCardDevice<S>>, start_block: u32, buffer: &mut [u8]) -> (r: SdCardResult<()>)
    requires
        start_block + old(buffer)@.len() / 512 <= u32::MAX,
    ensures
        final(buffer)@.len() == old(buffer)@.len(),
        old(card).is_none() ==> r == Err::<(), SdCardError>(SdCardError::NotInitialized),
        old(card).is_some() && old(buffer)@.len() % 512 != 0 ==> r == Err::<(), SdCardError>(SdCardError::InvalidSector)
            && final(buffer)@ == old(buffer)@,
        old(card).is_none() ==> final(buffer)@ == old(buffer)@,
        *old(card) matches Some(d) && old(buffer)@.len() % 512 == 0 && old(buffer)@.len() > 0 && !d.initialized
            ==> r == Err::<(), SdCardError>(SdCardError::NotInitialized),
        old(card).is_some() && old(buffer)@.len() == 0 ==> r.is_ok(),
{
    match card {
        Some(device) => device.read_blocks(start_block, buffer),
        None => Err(SdCardError::NotInitialized),
    }
}

/// Writes blocks to the card, if there is one.
pub fn write_sdcard_blocks<S: SpiInterface>(card: &mut Option<SdCardDevice<S>>, start_block: u32, buffer: &[u8]) -> (r: SdCardResult<()>)
    requires
        start_block + buffer@.len() / 512 <= u32::MAX,
    ensures
        old(card).is_none() ==> r == Err::<(), SdCardError>(SdCardError::NotInitialized),
        old(card).is_some() && buffer@.len() % 512 != 0 ==> r == Err::<(), SdCardError>(SdCardError::InvalidSector),
        *old(card) matches Some(d) && buffer@.len() % 512 == 0 && buffer@.len() > 0 && !d.initialized
            ==> r == Err::<(), SdCardError>(SdCardError::NotInitialized),
        old(card).is_some() && buffer@.len() == 0 ==> r.is_ok(),
{
    match card {
        Some(device) => device.write_blocks(start_block, buffer),
        None => Err(SdCardError::NotInitialized),
    }
}

/// The card's capacity in sectors, zero without a card.
pub fn get_sdcard_capacity<S: SpiInterface>(card: &Option<SdCardDevice<S>>) -> (c: u32)
    ensures
        match card {
            Some(d) => c == d.protocol.info.capacity_sectors,
            None => c == 0,
        },
{
    match card {
        Some(device) => device.get_capacity(),
        None => 0,
    }
}

} // verus!
