//! SD card initialization protocol over an SPI bus.
use vstd::prelude::*;
use super::commands::{
    SdCommand, SdResponse, ACMD41_SD_SEND_OP_COND, R1_IDLE_STATE, CMD0_GO_IDLE_STATE, CMD10_SEND_CID,
    CMD16_SET_BLOCKLEN, CMD55_APP_CMD, CMD58_READ_OCR, CMD8_SEND_IF_COND, CMD9_SEND_CSD,
    DATA_START_TOKEN,
};
use super::error::{SdCardError, SdCardResult};
use crate::drivers::spi::error::{SpiError, SpiResult};
use super::init::{
    init_step, init_transcript, lemma_transcript_push, progress, run_state, start_state, step_exchange, InitAction, InitAnswer, InitStage, InitState,
};

verus! {

#[derive(Debug, Clone, Copy, PartialEq, Eq, Structural)]
pub enum SdCardState {
    Uninitialized,
    Initializing,
    Idle,
    Ready,
    Active,
    Error,
}

#[derive(Debug, Clone, Copy, PartialEq, Eq, Structural)]
pub enum SdCardType {
    Unknown,
    SdscV1,
    SdscV2,
    Sdhc,
    Sdxc,
    MmcV3,
}

/// What the driver knows of the card.
#[derive(Debug, Clone, Copy)]
pub struct SdCardInfo {
    pub card_type: SdCardType,
    pub capacity_sectors: u32,
    pub block_size: u16,
    pub cid: [u8; 16],
    pub csd: [u8; 16],
    pub ocr: u32,
}

impl SdCardInfo {
    pub fn default() -> (i: Self)
        ensures
            i.card_type == SdCardType::Unknown,
            i.capacity_sectors == 0,
            i.block_size == 512,
            i.ocr == 0,
            forall|k: int| 0 <= k < 16 ==> #[trigger] i.cid@[k] == 0 && i.csd@[k] == 0,
    {
        SdCardInfo { card_type: SdCardType::Unknown, capacity_sectors: 0, block_size: 512, cid: [0u8; 16], csd: [0u8; 16], ocr: 0 }
    }
}

/// One use of the bus, as recorded in a bus log: chip select asserted
/// (kind 0), released (kind 1), or a transfer (kind 2) of the bytes sent and
/// the bytes received.
pub open spec fn select_op() -> (u8, Seq<u8>, Seq<u8>) {
    (0u8, Seq::empty(), Seq::empty())
}

pub open spec fn release_op() -> (u8, Seq<u8>, Seq<u8>) {
    (1u8, Seq::empty(), Seq::empty())
}

pub open spec fn transfer_op(tx: Seq<u8>, rx: Seq<u8>) -> (u8, Seq<u8>, Seq<u8>) {
    (2u8, tx, rx)
}

/// An SPI bus as the SD card protocol uses it; implemented by the bus drivers.
pub trait SpiInterface {
    /// Exchanges `tx_data` for as many bytes into `rx_data`.
    fn transfer(&mut self, tx_data: &[u8], rx_data: &mut [u8]) -> (r: SpiResult<()>)
        ensures
            final(rx_data)@.len() == old(rx_data)@.len();

    fn cs_active(&mut self) -> SpiResult<()>;

    fn cs_inactive(&mut self) -> SpiResult<()>;
}

/// A bus with the record of every use the driver makes of it: each call
/// goes to `bus` and is added to the record with what it sent, what came
/// back and whether the call succeeded.
pub struct TracedBus<T: SpiInterface> {
    pub bus: T,
    trace: Ghost<Seq<((u8, Seq<u8>, Seq<u8>), bool)>>,
}

/// Every call but the last succeeded, and the run failed on the bus exactly
/// when the last call did.
pub open spec fn stopped(oks: Seq<bool>, bus_failed: bool) -> bool {
    &&& forall|i: int| 0 <= i < oks.len() - 1 ==> #[trigger] oks[i]
    &&& bus_failed <==> (oks.len() > 0 && !oks.last())
}

/// Calls from `n0` on that all succeeded but perhaps the last stopped there.
pub proof fn lemma_stop(oks: Seq<bool>, n0: int)
    requires
        0 <= n0 < oks.len(),
        forall|i: int| n0 <= i < oks.len() - 1 ==> #[trigger] oks[i],
    ensures
        stopped(oks.skip(n0), !oks.last()),
{
    let seg = oks.skip(n0);
    assert forall|i: int| 0 <= i < seg.len() - 1 implies #[trigger] seg[i] by {
        assert(seg[i] == oks[n0 + i]);
    }
    assert(seg.last() == oks.last());
}

impl<T: SpiInterface> TracedBus<T> {
    /// `bus`, with nothing recorded yet.
    pub fn new(bus: T) -> (b: Self)
        ensures
            b.device() == bus,
            b.bus_log() == Seq::<(u8, Seq<u8>, Seq<u8>)>::empty(),
            b.bus_oks() == Seq::<bool>::empty(),
    {
        let b = TracedBus { bus, trace: Ghost(Seq::empty()) };
        proof {
            assert(b.bus_log() =~= Seq::<(u8, Seq<u8>, Seq<u8>)>::empty());
            assert(b.bus_oks() =~= Seq::<bool>::empty());
        }
        b
    }

    /// The bus itself.
    pub closed spec fn device(&self) -> T {
        self.bus
    }

    /// The uses of the bus so far, in order.
    pub closed spec fn bus_log(&self) -> Seq<(u8, Seq<u8>, Seq<u8>)> {
        Seq::new(self.trace@.len(), |i: int| self.trace@[i].0)
    }

    /// Whether each use of the bus succeeded, in the same order.
    pub closed spec fn bus_oks(&self) -> Seq<bool> {
        Seq::new(self.trace@.len(), |i: int| self.trace@[i].1)
    }

    /// The two records have one entry per use.
    pub proof fn lemma_aligned(&self)
        ensures
            self.bus_oks().len() == self.bus_log().len(),
    {
    }

    proof fn lemma_push(&self, old_bus: &Self, op: (u8, Seq<u8>, Seq<u8>), ok: bool)
        requires
            self.trace@ == old_bus.trace@.push((op, ok)),
        ensures
            self.bus_log() == old_bus.bus_log().push(op),
            self.bus_oks() == old_bus.bus_oks().push(ok),
    {
        assert(self.bus_log() =~= old_bus.bus_log().push(op));
        assert(self.bus_oks() =~= old_bus.bus_oks().push(ok));
    }

    pub fn transfer(&mut self, tx_data: &[u8], rx_data: &mut [u8]) -> (r: SpiResult<()>)
        ensures
            final(rx_data)@.len() == old(rx_data)@.len(),
            final(self).bus_log() == old(self).bus_log().push(transfer_op(tx_data@, final(rx_data)@)),
            final(self).bus_oks() == old(self).bus_oks().push(r is Ok),
    {
        let r = self.bus.transfer(tx_data, rx_data);
        let ghost before = *self;
        let ok = r.is_ok();
        self.trace = Ghost(self.trace@.push((transfer_op(tx_data@, rx_data@), ok)));
        proof { self.lemma_push(&before, transfer_op(tx_data@, rx_data@), ok); }
        r
    }

    pub fn cs_active(&mut self) -> (r: SpiResult<()>)
        ensures
            final(self).bus_log() == old(self).bus_log().push(select_op()),
            final(self).bus_oks() == old(self).bus_oks().push(r is Ok),
    {
        let r = self.bus.cs_active();
        let ghost before = *self;
        let ok = r.is_ok();
        self.trace = Ghost(self.trace@.push((select_op(), ok)));
        proof { self.lemma_push(&before, select_op(), ok); }
        r
    }

    pub fn cs_inactive(&mut self) -> (r: SpiResult<()>)
        ensures
            final(self).bus_log() == old(self).bus_log().push(release_op()),
            final(self).bus_oks() == old(self).bus_oks().push(r is Ok),
    {
        let r = self.bus.cs_inactive();
        let ghost before = *self;
        let ok = r.is_ok();
        self.trace = Ghost(self.trace@.push((release_op(), ok)));
        proof { self.lemma_push(&before, release_op(), ok); }
        r
    }
}

/// A command frame on the bus: six bytes whose first has the start bits 01.
pub open spec fn is_frame(op: (u8, Seq<u8>, Seq<u8>)) -> bool {
    op.0 == 2 && op.1.len() == 6 && op.1[0] & 0xC0 == 0x40
}

/// The command frames sent in `ops`, in order.
pub open spec fn frames_sent(ops: Seq<(u8, Seq<u8>, Seq<u8>)>) -> Seq<Seq<u8>>
    decreases ops.len(),
{
    if ops.len() == 0 {
        Seq::empty()
    } else if is_frame(ops.last()) {
        frames_sent(ops.drop_last()).push(ops.last().1)
    } else {
        frames_sent(ops.drop_last())
    }
}

/// The frames of two stretches of the log, one after the other.
pub proof fn lemma_frames_concat(a: Seq<(u8, Seq<u8>, Seq<u8>)>, b: Seq<(u8, Seq<u8>, Seq<u8>)>)
    ensures
        frames_sent(a + b) == frames_sent(a) + frames_sent(b),
    decreases b.len(),
{
    if b.len() == 0 {
        assert(a + b =~= a);
        assert(frames_sent(b) =~= Seq::<Seq<u8>>::empty());
        assert(frames_sent(a) + frames_sent(b) =~= frames_sent(a));
    } else {
        lemma_frames_concat(a, b.drop_last());
        assert((a + b).drop_last() =~= a + b.drop_last());
        assert((a + b).last() == b.last());
        if is_frame(b.last()) {
            assert(frames_sent(a) + frames_sent(b) =~= (frames_sent(a) + frames_sent(b.drop_last())).push(b.last().1));
        } else {
            assert(frames_sent(a) + frames_sent(b) =~= frames_sent(a) + frames_sent(b.drop_last()));
        }
    }
}

/// The six bytes of `cmd` on the bus.
pub open spec fn frame_bytes(cmd: SdCommand) -> Seq<u8> {
    super::commands::command_frame(cmd.cmd, cmd.arg).push(((cmd.crc << 1u8) | 1) as u8)
}

/// The frame of command `index` with argument `arg` (and its CRC).
pub open spec fn frame_of(index: u8, arg: u32) -> Seq<u8> {
    super::commands::command_frame(index, arg).push(((super::commands::crc7_of(super::commands::command_frame(index, arg)) << 1u8) | 1) as u8)
}

/// A one-byte transfer of 0xFF, to read a byte.
pub open spec fn is_poll(op: (u8, Seq<u8>, Seq<u8>)) -> bool {
    op.0 == 2 && op.1 == seq![0xFFu8] && op.2.len() == 1
}

/// `ops[1..n)` are polls, of which all but the last read 0xFF.
pub open spec fn polled(ops: Seq<(u8, Seq<u8>, Seq<u8>)>, n: int) -> bool {
    &&& forall|i: int| 1 <= i < n ==> #[trigger] is_poll(ops[i])
    &&& forall|i: int| 1 <= i < n - 1 ==> (#[trigger] ops[i]).2[0] == 0xFF
}

/// `ops` is the bus use of sending `cmd` and reading its answer, which gives
/// `r`: the frame, then up to 100 polls until a byte other than 0xFF (the
/// R1 answer), and for CMD58 four more bytes read (the OCR). A hundred polls
/// that all read 0xFF give `CommandTimeout`; a bus error may cut the
/// exchange short.
pub open spec fn command_exchange(cmd: SdCommand, ops: Seq<(u8, Seq<u8>, Seq<u8>)>, r: SdCardResult<SdResponse>) -> bool {
    &&& ops.len() >= 1
    &&& ops[0] == transfer_op(frame_bytes(cmd), ops[0].2)
    &&& match r {
        Ok(resp) => {
            let k = if cmd.cmd == CMD58_READ_OCR { ops.len() - 2 } else { ops.len() - 1 };
            &&& 1 <= k <= 100
            &&& polled(ops, k + 1)
            &&& resp.r1 == ops[k].2[0]
            &&& resp.r1 != 0xFF
            &&& if cmd.cmd == CMD58_READ_OCR {
                ops[k + 1] == transfer_op(seq![0xFFu8, 0xFF, 0xFF, 0xFF], resp.data@)
            } else {
                resp.data@ == seq![0u8, 0, 0, 0]
            }
        },
        Err(e) => e == SdCardError::SpiError || (e == SdCardError::CommandTimeout && ops.len() == 101
            && polled(ops, 101) && ops[100].2[0] == 0xFF),
    }
}

/// `ops` is the bus use of reading a register's data block, which gives
/// `r`: polls (one byte of 0xFF each) until the data start token, at most
/// 1000, then the 16 bytes of the register and two CRC bytes. A thousand
/// polls without the token give `CommandTimeout`; a bus error cuts the read
/// short (see `stopped`).
pub open spec fn data_exchange(ops: Seq<(u8, Seq<u8>, Seq<u8>)>, r: SdCardResult<[u8; 16]>) -> bool {
    &&& 1 <= ops.len() <= 1002
    &&& forall|i: int| 0 <= i < ops.len() ==> (#[trigger] ops[i]).0 == 2 && ops[i].1.len() != 6
    &&& match r {
        Ok(d) => {
            let p = ops.len() - 2;
            &&& 1 <= p <= 1000
            &&& forall|i: int| 0 <= i < p ==> #[trigger] is_poll(ops[i])
            &&& forall|i: int| 0 <= i < p - 1 ==> (#[trigger] ops[i]).2[0] != DATA_START_TOKEN
            &&& ops[p - 1].2[0] == DATA_START_TOKEN
            &&& ops[p] == transfer_op(Seq::new(16, |i: int| 0xFFu8), d@)
            &&& ops[p + 1].1 == seq![0xFFu8, 0xFF]
        },
        Err(e) => e == SdCardError::SpiError || (e == SdCardError::CommandTimeout && ops.len() == 1000
            && forall|i: int| 0 <= i < 1000 ==> #[trigger] is_poll(ops[i]) && ops[i].2[0] != DATA_START_TOKEN),
    }
}

/// Only the first op of `ops` can be a frame when the others are not six
/// bytes long.
proof fn lemma_frames_tail(ops: Seq<(u8, Seq<u8>, Seq<u8>)>)
    requires
        ops.len() >= 1,
        is_frame(ops[0]),
        forall|i: int| 1 <= i < ops.len() ==> (#[trigger] ops[i]).0 == 2 && ops[i].1.len() != 6,
    ensures
        frames_sent(ops) == seq![ops[0].1],
    decreases ops.len(),
{
    if ops.len() == 1 {
        assert(ops.drop_last() =~= Seq::<(u8, Seq<u8>, Seq<u8>)>::empty());
        assert(frames_sent(ops.drop_last()) =~= Seq::<Seq<u8>>::empty());
    } else {
        let d = ops.drop_last();
        assert forall|i: int| 1 <= i < d.len() implies (#[trigger] d[i]).0 == 2 && d[i].1.len() != 6 by {
            assert(d[i] == ops[i]);
        }
        lemma_frames_tail(d);
        assert(!is_frame(ops.last()));
    }
}

/// `new` is `old` with more uses of the bus after it.
pub open spec fn extends(old_log: Seq<(u8, Seq<u8>, Seq<u8>)>, new_log: Seq<(u8, Seq<u8>, Seq<u8>)>) -> bool {
    new_log.len() >= old_log.len() && new_log.take(old_log.len() as int) == old_log
}

pub proof fn lemma_extends(a: Seq<(u8, Seq<u8>, Seq<u8>)>, b: Seq<(u8, Seq<u8>, Seq<u8>)>, c: Seq<(u8, Seq<u8>, Seq<u8>)>)
    requires
        extends(a, b),
        extends(b, c),
    ensures
        extends(a, c),
        forall|i: int| 0 <= i < a.len() ==> #[trigger] c[i] == a[i],
        c.skip(a.len() as int).take(b.len() - a.len()) == b.skip(a.len() as int),
{
    assert forall|i: int| 0 <= i < a.len() implies #[trigger] c[i] == a[i] by {
        assert(c.take(b.len() as int)[i] == b[i]);
        assert(b.take(a.len() as int)[i] == a[i]);
    }
    assert(c.take(a.len() as int) =~= a);
    assert forall|i: int| 0 <= i < b.len() - a.len() implies c.skip(a.len() as int).take(b.len() - a.len())[i] == b.skip(a.len() as int)[i] by {
        assert(c.take(b.len() as int)[a.len() + i] == b[a.len() + i]);
    }
    assert(c.skip(a.len() as int).take(b.len() - a.len()) =~= b.skip(a.len() as int));
}

/// A stretch of the log none of whose ops is a frame adds no frame.
pub proof fn lemma_no_frames(prev: Seq<(u8, Seq<u8>, Seq<u8>)>, new: Seq<(u8, Seq<u8>, Seq<u8>)>)
    requires
        new.len() >= prev.len(),
        new.take(prev.len() as int) == prev,
        forall|i: int| prev.len() <= i < new.len() ==> !is_frame(#[trigger] new[i]),
    ensures
        frames_sent(new) == frames_sent(prev),
    decreases new.len(),
{
    if new.len() == prev.len() {
        assert(new =~= prev);
    } else {
        let d = new.drop_last();
        assert(d.take(prev.len() as int) =~= prev);
        assert forall|i: int| prev.len() <= i < d.len() implies !is_frame(#[trigger] d[i]) by {
            assert(d[i] == new[i]);
        }
        lemma_no_frames(prev, d);
        assert(!is_frame(new[new.len() - 1]));
    }
}

/// A stretch of the log that starts with `frame` and goes on with transfers
/// of other lengths adds that one frame.
pub proof fn lemma_one_frame(prev: Seq<(u8, Seq<u8>, Seq<u8>)>, new: Seq<(u8, Seq<u8>, Seq<u8>)>, frame: Seq<u8>)
    requires
        frame.len() == 6,
        frame[0] & 0xC0 == 0x40,
        new.len() > prev.len(),
        new.take(prev.len() as int) == prev,
        new[prev.len() as int].0 == 2,
        new[prev.len() as int].1 == frame,
        forall|i: int| prev.len() < i < new.len() ==> (#[trigger] new[i]).0 == 2 && new[i].1.len() != 6,
    ensures
        frames_sent(new) == frames_sent(prev).push(frame),
{
    let seg = new.skip(prev.len() as int);
    assert(new =~= prev + seg);
    assert forall|i: int| 1 <= i < seg.len() implies (#[trigger] seg[i]).0 == 2 && seg[i].1.len() != 6 by {
        assert(seg[i] == new[prev.len() + i]);
    }
    lemma_frames_tail(seg);
    lemma_frames_concat(prev, seg);
    assert(frames_sent(prev) + seq![frame] =~= frames_sent(prev).push(frame));
}

/// The command `index` with argument `arg` as `SdCommand::new` makes it.
pub open spec fn command(index: u8, arg: u32) -> SdCommand {
    SdCommand { cmd: index, arg, crc: super::commands::crc7_of(super::commands::command_frame(index, arg)) }
}

/// A frame of a command with an index below 64 starts with the bits 01.
pub proof fn lemma_frame_of_start(index: u8, arg: u32)
    requires
        index < 64,
    ensures
        frame_of(index, arg).len() == 6,
        frame_of(index, arg)[0] & 0xC0 == 0x40,
        frame_bytes(command(index, arg)) == frame_of(index, arg),
{
    assert(index < 64 ==> (0x40u8 | index) & 0xC0 == 0x40) by (bit_vector);
}

/// The ACMD41 argument: high capacity supported, for a version 2 card.
pub open spec fn acmd41_arg(v2: bool) -> u32 {
    if v2 { 0x40000000 } else { 0 }
}

/// A standard-capacity card, which is told the 512-byte block length.
pub open spec fn is_sdsc(t: SdCardType) -> bool {
    t == SdCardType::SdscV1 || t == SdCardType::SdscV2
}

/// Bus errors surface as `SdCardError::SpiError`.
pub fn spi_err<T>(r: SpiResult<T>) -> (o: SdCardResult<T>)
    ensures
        match r {
            Ok(v) => o == Ok::<T, SdCardError>(v),
            Err(_) => o == Err::<T, SdCardError>(SdCardError::SpiError),
        },
{
    match r {
        Ok(v) => Ok(v),
        Err(_) => Err(SdCardError::SpiError),
    }
}

/// The card type from the CMD8 answer and the OCR register.
pub open spec fn card_type_of(is_v2: bool, ocr: u32) -> SdCardType {
    if is_v2 {
        if ocr & 0x40000000 != 0 { SdCardType::Sdhc } else { SdCardType::SdscV2 }
    } else {
        SdCardType::SdscV1
    }
}

/// The capacity in 512-byte sectors given by a CSD register of a card type.
pub open spec fn csd_capacity(card_type: SdCardType, csd: Seq<u8>) -> u32 {
    match card_type {
        SdCardType::SdscV1 => {
            let c_size = (csd[6] & 0x03) as int * 1024 + csd[7] as int * 4 + (csd[8] & 0xC0) as int / 64;
            let c_size_mult = (csd[9] & 0x03) as int * 2 + (csd[10] & 0x80) as int / 128;
            let read_bl_len = (csd[5] & 0x0F) as nat;
            let block_count = (c_size + 1) * vstd::arithmetic::power2::pow2((c_size_mult + 2) as nat);
            ((block_count * vstd::arithmetic::power2::pow2(read_bl_len)) / 512) as u32
        },
        SdCardType::SdscV2 | SdCardType::Sdhc | SdCardType::Sdxc => {
            let c_size = (csd[7] & 0x3F) as int * 0x10000 + csd[8] as int * 0x100 + csd[9] as int;
            ((c_size + 1) * 1024) as u32
        },
        _ => 0,
    }
}

/// State and card information of the SD protocol.
pub struct SdCardProtocol {
    pub state: SdCardState,
    pub info: SdCardInfo,
    /// The answers of the last initialization and where each one's use of
    /// the bus starts in the bus record.
    pub last_init: Ghost<(Seq<InitAnswer>, Seq<int>)>,
}

/// `2^e` for `e < 64`.
pub fn pow2_u64(e: u32) -> (r: u64)
    requires
        e < 64,
    ensures
        r == vstd::arithmetic::power2::pow2(e as nat),
{
    let mut r: u64 = 1;
    let mut i: u32 = 0;
    proof { vstd::arithmetic::power2::lemma2_to64(); }
    while i < e
        invariant
            0 <= i <= e < 64,
            r == vstd::arithmetic::power2::pow2(i as nat),
        decreases e - i,
    {
        proof {
            vstd::arithmetic::power2::lemma_pow2_unfold((i + 1) as nat);
            vstd::arithmetic::power2::lemma_pow2_strictly_increases(i as nat, 63);
            vstd::arithmetic::power2::lemma2_to64_rest();
        }
        r = r * 2;
        i = i + 1;
    }
    r
}

/// The capacity in 512-byte sectors that the CSD register `csd` gives for a
/// card of type `card_type` (see `csd_capacity`).
pub fn capacity_of_csd(card_type: SdCardType, csd: &[u8; 16]) -> (c: u32)
    ensures
        c == csd_capacity(card_type, csd@),
{
    match card_type {
        SdCardType::SdscV1 => {
            let b5 = csd[5];
            let b6 = csd[6];
            let b7 = csd[7];
            let b8 = csd[8];
            let b9 = csd[9];
            let b10 = csd[10];
            proof {
                assert(b5 & 0x0F <= 15) by (bit_vector);
                assert(b6 & 0x03 <= 3) by (bit_vector);
                assert(b9 & 0x03 <= 3) by (bit_vector);
                assert(b10 & 0x80 <= 0x80) by (bit_vector);
                assert(b8 & 0xC0 <= 0xC0) by (bit_vector);
            }
            let c_size: u64 = (b6 & 0x03) as u64 * 1024 + b7 as u64 * 4 + (b8 & 0xC0) as u64 / 64;
            let c_size_mult: u64 = (b9 & 0x03) as u64 * 2 + (b10 & 0x80) as u64 / 128;
            let read_bl_len: u32 = (b5 & 0x0F) as u32;
            let mult = pow2_u64((c_size_mult + 2) as u32);
            let block_len = pow2_u64(read_bl_len);
            proof {
                if c_size_mult + 2 < 9 {
                    vstd::arithmetic::power2::lemma_pow2_strictly_increases((c_size_mult + 2) as nat, 9);
                }
                if read_bl_len < 15 {
                    vstd::arithmetic::power2::lemma_pow2_strictly_increases(read_bl_len as nat, 15);
                }
                vstd::arithmetic::power2::lemma2_to64();
                assert((c_size + 1) * mult <= 4096 * 512) by (nonlinear_arith)
                    requires c_size + 1 <= 4096, mult <= 512;
                assert((c_size + 1) * mult * block_len <= 4096 * 512 * 32768) by (nonlinear_arith)
                    requires (c_size + 1) * mult <= 4096 * 512, block_len <= 32768;
            }
            let block_count = (c_size + 1) * mult;
            ((block_count * block_len) / 512) as u32
        },
        SdCardType::SdscV2 | SdCardType::Sdhc | SdCardType::Sdxc => {
            let b7 = csd[7];
            proof { assert(b7 & 0x3F <= 0x3F) by (bit_vector); }
            let c_size: u64 = (b7 & 0x3F) as u64 * 0x10000 + csd[8] as u64 * 0x100 + csd[9] as u64;
            ((c_size + 1) * 1024) as u32
        },
        _ => {
            0
        },
    }
}

/// The capacity of a standard-capacity version 1 card: with C_SIZE (CSD
/// bits 73..62), C_SIZE_MULT (bits 49..47) and READ_BL_LEN (bits 83..80),
/// the card holds C_SIZE + 1 groups of 2^(C_SIZE_MULT + 2) blocks of
/// 2^READ_BL_LEN bytes; its capacity in 512-byte sectors is that byte count
/// divided by 512, which for blocks of 512 bytes or more is exact and at
/// least one group (4 sectors).
pub proof fn law_sdsc_v1_capacity(csd: Seq<u8>)
    requires
        csd.len() == 16,
    ensures
        ({
            let c_size = ((csd[6] & 0x03) as int) * 0x400 + (csd[7] as int) * 4 + ((csd[8] >> 6u8) as int);
            let c_size_mult = ((csd[9] & 0x03) as int) * 2 + ((csd[10] >> 7u8) as int);
            let read_bl_len = (csd[5] & 0x0F) as nat;
            let bytes = (c_size + 1) * vstd::arithmetic::power2::pow2((c_size_mult + 2) as nat)
                * vstd::arithmetic::power2::pow2(read_bl_len);
            &&& csd_capacity(SdCardType::SdscV1, csd) as int == bytes / 512
            &&& read_bl_len >= 9 ==> csd_capacity(SdCardType::SdscV1, csd) as int * 512 == bytes
                && csd_capacity(SdCardType::SdscV1, csd) >= 4
        }),
{
    let b5 = csd[5];
    let b6 = csd[6];
    let b8 = csd[8];
    let b9 = csd[9];
    let b10 = csd[10];
    assert((b8 & 0xC0) / 64 == b8 >> 6u8) by (bit_vector);
    assert((b10 & 0x80) / 128 == b10 >> 7u8) by (bit_vector);
    assert((b5 & 0x0F) <= 15) by (bit_vector);
    assert(b6 & 0x03 <= 3) by (bit_vector);
    assert(b9 & 0x03 <= 3) by (bit_vector);
    assert(b8 >> 6u8 <= 3) by (bit_vector);
    assert(b10 >> 7u8 <= 1) by (bit_vector);
    let c_size = ((csd[6] & 0x03) as int) * 0x400 + (csd[7] as int) * 4 + ((csd[8] >> 6u8) as int);
    let c_size_mult = ((csd[9] & 0x03) as int) * 2 + ((csd[10] >> 7u8) as int);
    let read_bl_len = (csd[5] & 0x0F) as nat;
    let m = vstd::arithmetic::power2::pow2((c_size_mult + 2) as nat);
    let bl = vstd::arithmetic::power2::pow2(read_bl_len);
    vstd::arithmetic::power2::lemma2_to64();
    vstd::arithmetic::power2::lemma_pow2_pos((c_size_mult + 2) as nat);
    vstd::arithmetic::power2::lemma_pow2_pos(read_bl_len);
    if c_size_mult + 2 < 9 {
        vstd::arithmetic::power2::lemma_pow2_strictly_increases((c_size_mult + 2) as nat, 9);
    }
    if read_bl_len < 15 {
        vstd::arithmetic::power2::lemma_pow2_strictly_increases(read_bl_len, 15);
    }
    let bytes = (c_size + 1) * m * bl;
    assert(0 <= bytes <= 4096 * 512 * 32768) by (nonlinear_arith)
        requires 1 <= c_size + 1 <= 4096, 1 <= m <= 512, 1 <= bl <= 32768, bytes == (c_size + 1) * m * bl;
    if read_bl_len >= 9 {
        vstd::arithmetic::power2::lemma_pow2_adds((read_bl_len - 9) as nat, 9);
        vstd::arithmetic::power2::lemma_pow2_pos((read_bl_len - 9) as nat);
        let q = (c_size + 1) * m * vstd::arithmetic::power2::pow2((read_bl_len - 9) as nat);
        assert(bytes == q * 512) by (nonlinear_arith)
            requires bl == vstd::arithmetic::power2::pow2((read_bl_len - 9) as nat) * 512,
                q == (c_size + 1) * m * vstd::arithmetic::power2::pow2((read_bl_len - 9) as nat),
                bytes == (c_size + 1) * m * bl;
        assert(q >= 4) by (nonlinear_arith)
            requires c_size + 1 >= 1, m >= 4, vstd::arithmetic::power2::pow2((read_bl_len - 9) as nat) >= 1,
                q == (c_size + 1) * m * vstd::arithmetic::power2::pow2((read_bl_len - 9) as nat);
        assert((q * 512) / 512 == q) by (nonlinear_arith);
    }
}

/// The capacity of a version 2 (or high-capacity) card: C_SIZE (CSD bits
/// 69..48) plus one, times 1024 sectors of 512 bytes (for every C_SIZE but
/// the largest, whose sector count does not fit 32 bits).
pub proof fn law_sdhc_capacity(csd: Seq<u8>, card_type: SdCardType)
    requires
        csd.len() == 16,
        card_type == SdCardType::SdscV2 || card_type == SdCardType::Sdhc || card_type == SdCardType::Sdxc,
        ((csd[7] & 0x3F) as int) * 0x1_0000 + (csd[8] as int) * 0x100 + csd[9] as int + 1 < 0x40_0000,
    ensures
        csd_capacity(card_type, csd) as int == (((csd[7] & 0x3F) as int) * 0x1_0000 + (csd[8] as int) * 0x100
            + csd[9] as int + 1) * 1024,
{
    let b7 = csd[7];
    assert(b7 & 0x3F <= 0x3F) by (bit_vector);
}

impl SdCardProtocol {
    pub fn new() -> (p: Self)
        ensures
            p.state == SdCardState::Uninitialized,
            p.info.card_type == SdCardType::Unknown,
            p.info.capacity_sectors == 0,
            p.info.block_size == 512,
    {
        SdCardProtocol { state: SdCardState::Uninitialized, info: SdCardInfo::default(), last_init: Ghost((Seq::empty(), seq![0int])) }
    }

    /// Computes the capacity from the CSD register and the card type.
    pub fn calculate_capacity(&mut self)
        ensures
            final(self).info.capacity_sectors == csd_capacity(old(self).info.card_type, old(self).info.csd@),
            final(self).info.card_type == old(self).info.card_type,
            final(self).info.csd == old(self).info.csd,
            final(self).info.ocr == old(self).info.ocr,
            final(self).state == old(self).state,
    {
        self.info.capacity_sectors = capacity_of_csd(self.info.card_type, &self.info.csd);
    }

    /// Sends a command and waits up to 100 bytes for its R1 answer; CMD58
    /// answers with four more bytes (the OCR). See `command_exchange`.
    pub fn send_command<T: SpiInterface>(&self, spi: &mut TracedBus<T>, cmd: SdCommand) -> (r: SdCardResult<SdResponse>)
        ensures
            final(spi).bus_log().len() > old(spi).bus_log().len(),
            final(spi).bus_log().take(old(spi).bus_log().len() as int) == old(spi).bus_log(),
            final(spi).bus_oks().take(old(spi).bus_log().len() as int) == old(spi).bus_oks(),
            command_exchange(cmd, final(spi).bus_log().skip(old(spi).bus_log().len() as int), r),
            stopped(final(spi).bus_oks().skip(old(spi).bus_log().len() as int), r == Err::<SdResponse, SdCardError>(SdCardError::SpiError)),
            final(spi).bus_log().len() <= old(spi).bus_log().len() + 102,
            forall|i: int| old(spi).bus_log().len() < i < final(spi).bus_log().len()
                ==> (#[trigger] final(spi).bus_log()[i]).0 == 2 && final(spi).bus_log()[i].1.len() != 6,
    {
        let ghost start = spi.bus_log();
        let ghost n0 = start.len() as int;
        let ghost start_oks = spi.bus_oks();
        proof { spi.lemma_aligned(); }
        let cmd_bytes = cmd.to_bytes();
        let mut dummy = [0u8; 6];
        let sent = spi.transfer(&cmd_bytes, &mut dummy);
        proof { assert(spi.bus_oks().take(n0) =~= spi.bus_oks().drop_last().take(n0)); }
        proof {
            spi.lemma_aligned();
            lemma_stop(spi.bus_oks(), n0);
            assert(spi.bus_log().take(n0) =~= start);
            assert(spi.bus_log().skip(n0) =~= seq![transfer_op(frame_bytes(cmd), dummy@)]);
        }
        spi_err(sent)?;
        let mut response: u8 = 0xFF;
        let mut timeout: u32 = 100;
        while timeout > 0 && response == 0xFF
            invariant
                n0 == start.len(),
                start == old(spi).bus_log(),
                spi.bus_log().len() == n0 + 1 + (100 - timeout),
                timeout <= 100,
                spi.bus_log().take(n0) == start,
                start_oks == old(spi).bus_oks(),
                spi.bus_oks().take(n0) == start_oks,
                spi.bus_oks().len() == spi.bus_log().len(),
                forall|i: int| n0 <= i < spi.bus_oks().len() ==> #[trigger] spi.bus_oks()[i],
                spi.bus_log()[n0] == transfer_op(frame_bytes(cmd), spi.bus_log()[n0].2),
                polled(spi.bus_log().skip(n0), 1 + (100 - timeout)),
                timeout < 100 ==> response == spi.bus_log().last().2[0],
                timeout < 100 && response == 0xFF ==> spi.bus_log().last().2[0] == 0xFF,
                timeout == 100 ==> response == 0xFF,
                forall|i: int| n0 < i < spi.bus_log().len() ==> (#[trigger] spi.bus_log()[i]).0 == 2 && spi.bus_log()[i].1.len() != 6,
            decreases timeout,
        {
            let ghost before = spi.bus_log();
            let ghost before_oks = spi.bus_oks();
            let tx = [0xFFu8; 1];
            let mut rx = [0u8; 1];
            let polled_ok = spi.transfer(&tx, &mut rx);
            proof { assert(spi.bus_oks().take(n0) =~= spi.bus_oks().drop_last().take(n0)); }
            proof {
                spi.lemma_aligned();
                assert forall|i: int| n0 <= i < spi.bus_oks().len() - 1 implies #[trigger] spi.bus_oks()[i] by {
                    assert(spi.bus_oks()[i] == before_oks[i]);
                }
                lemma_stop(spi.bus_oks(), n0);
                assert(tx@ =~= seq![0xFFu8]);
                let ops = spi.bus_log().skip(n0);
                let old_ops = before.skip(n0);
                assert(ops =~= old_ops.push(transfer_op(tx@, rx@)));
                assert(spi.bus_log().take(n0) =~= before.take(n0));
                assert forall|i: int| 1 <= i < ops.len() implies #[trigger] is_poll(ops[i]) by {
                    if i < old_ops.len() {
                        assert(ops[i] == old_ops[i]);
                    }
                }
                assert forall|i: int| 1 <= i < ops.len() - 1 implies (#[trigger] ops[i]).2[0] == 0xFF by {
                    assert(ops[i] == old_ops[i]);
                    if i == old_ops.len() - 1 {
                        assert(old_ops[i] == before.last());
                    }
                }
                assert forall|i: int| n0 < i < spi.bus_log().len() implies (#[trigger] spi.bus_log()[i]).0 == 2
                    && spi.bus_log()[i].1.len() != 6 by {
                    if i < before.len() {
                        assert(spi.bus_log()[i] == before[i]);
                    }
                }
            }
            spi_err(polled_ok)?;
            response = rx[0];
            timeout = timeout - 1;
        }
        proof {
            lemma_stop(spi.bus_oks(), n0);
        }
        if response == 0xFF {
            proof {
                assert(spi.bus_log().skip(n0).len() == 101);
            }
            return Err(SdCardError::CommandTimeout);
        }
        let mut sd_response = SdResponse::new(response);
        if cmd.cmd == CMD58_READ_OCR {
            let ghost before = spi.bus_log();
            let ghost before_oks = spi.bus_oks();
            let mut data = [0u8; 4];
            let tx = [0xFFu8; 4];
            let read = spi.transfer(&tx, &mut data);
            proof { assert(spi.bus_oks().take(n0) =~= spi.bus_oks().drop_last().take(n0)); }
            proof {
                spi.lemma_aligned();
                assert forall|i: int| n0 <= i < spi.bus_oks().len() - 1 implies #[trigger] spi.bus_oks()[i] by {
                    assert(spi.bus_oks()[i] == before_oks[i]);
                }
                lemma_stop(spi.bus_oks(), n0);
                assert(tx@ =~= seq![0xFFu8, 0xFF, 0xFF, 0xFF]);
                let ops = spi.bus_log().skip(n0);
                let old_ops = before.skip(n0);
                assert(ops =~= old_ops.push(transfer_op(tx@, data@)));
                assert(spi.bus_log().take(n0) =~= before.take(n0));
                assert forall|i: int| 1 <= i < old_ops.len() implies #[trigger] is_poll(ops[i]) by {
                    assert(ops[i] == old_ops[i]);
                }
                assert forall|i: int| 1 <= i < old_ops.len() - 1 implies (#[trigger] ops[i]).2[0] == 0xFF by {
                    assert(ops[i] == old_ops[i]);
                }
                assert forall|i: int| n0 < i < spi.bus_log().len() implies (#[trigger] spi.bus_log()[i]).0 == 2
                    && spi.bus_log()[i].1.len() != 6 by {
                    if i < before.len() {
                        assert(spi.bus_log()[i] == before[i]);
                    }
                }
                assert(ops[old_ops.len() - 1] == old_ops.last());
            }
            spi_err(read)?;
            sd_response = SdResponse::with_data(response, data);
        }
        Ok(sd_response)
    }

    /// Reads a register's data block (see `data_exchange`).
    pub fn read_data<T: SpiInterface>(&self, spi: &mut TracedBus<T>) -> (r: SdCardResult<[u8; 16]>)
        ensures
            final(spi).bus_log().len() > old(spi).bus_log().len(),
            final(spi).bus_log().take(old(spi).bus_log().len() as int) == old(spi).bus_log(),
            final(spi).bus_oks().take(old(spi).bus_log().len() as int) == old(spi).bus_oks(),
            data_exchange(final(spi).bus_log().skip(old(spi).bus_log().len() as int), r),
            stopped(final(spi).bus_oks().skip(old(spi).bus_log().len() as int), r == Err::<[u8; 16], SdCardError>(SdCardError::SpiError)),
    {
        let ghost start = spi.bus_log();
        let ghost n0 = start.len() as int;
        let ghost start_oks = spi.bus_oks();
        proof { spi.lemma_aligned(); }
        let mut token: u8 = 0xFF;
        let mut timeout: u32 = 1000;
        while timeout > 0 && token != DATA_START_TOKEN
            invariant
                n0 == start.len(),
                start == old(spi).bus_log(),
                timeout <= 1000,
                spi.bus_log().len() == n0 + (1000 - timeout),
                spi.bus_log().take(n0) == start,
                start_oks == old(spi).bus_oks(),
                spi.bus_oks().take(n0) == start_oks,
                spi.bus_oks().len() == spi.bus_log().len(),
                forall|i: int| n0 <= i < spi.bus_oks().len() ==> #[trigger] spi.bus_oks()[i],
                forall|i: int| n0 <= i < spi.bus_log().len() ==> #[trigger] is_poll(spi.bus_log()[i]),
                forall|i: int| n0 <= i < spi.bus_log().len() - 1 ==> (#[trigger] spi.bus_log()[i]).2[0] != DATA_START_TOKEN,
                timeout < 1000 ==> token == spi.bus_log().last().2[0],
                timeout == 1000 ==> token == 0xFF,
            decreases timeout,
        {
            let ghost before = spi.bus_log();
            let ghost before_oks = spi.bus_oks();
            let tx = [0xFFu8; 1];
            let mut rx = [0u8; 1];
            let polled_ok = spi.transfer(&tx, &mut rx);
            proof { assert(spi.bus_oks().take(n0) =~= spi.bus_oks().drop_last().take(n0)); }
            proof {
                spi.lemma_aligned();
                assert(tx@ =~= seq![0xFFu8]);
                assert(spi.bus_log().take(n0) =~= before.take(n0));
                assert forall|i: int| n0 <= i < spi.bus_oks().len() - 1 implies #[trigger] spi.bus_oks()[i] by {
                    assert(spi.bus_oks()[i] == before_oks[i]);
                }
                assert forall|i: int| n0 <= i < spi.bus_log().len() implies #[trigger] is_poll(spi.bus_log()[i]) by {
                    if i < before.len() {
                        assert(spi.bus_log()[i] == before[i]);
                    }
                }
                assert forall|i: int| n0 <= i < spi.bus_log().len() - 1 implies (#[trigger] spi.bus_log()[i]).2[0] != DATA_START_TOKEN by {
                    assert(spi.bus_log()[i] == before[i]);
                    if i == before.len() - 1 {
                        assert(before[i] == before.last());
                    }
                }
                lemma_stop(spi.bus_oks(), n0);
                let ops = spi.bus_log().skip(n0);
                assert forall|i: int| 0 <= i < ops.len() implies (#[trigger] ops[i]).0 == 2 && ops[i].1.len() != 6 by {
                    assert(ops[i] == spi.bus_log()[n0 + i]);
                    assert(is_poll(spi.bus_log()[n0 + i]));
                }
            }
            spi_err(polled_ok)?;
            token = rx[0];
            timeout = timeout - 1;
        }
        let ghost polls = spi.bus_log();
        proof {
            let ops = polls.skip(n0);
            assert forall|i: int| 0 <= i < ops.len() implies #[trigger] is_poll(ops[i]) && ops[i].1.len() != 6 by {
                assert(ops[i] == polls[n0 + i]);
            }
        }
        if token != DATA_START_TOKEN {
            proof {
                let ops = polls.skip(n0);
                assert forall|i: int| 0 <= i < 1000 implies #[trigger] is_poll(ops[i]) && ops[i].2[0] != DATA_START_TOKEN by {
                    assert(ops[i] == polls[n0 + i]);
                    if i == 999 {
                        assert(polls[n0 + i] == polls.last());
                    }
                }
                lemma_stop(spi.bus_oks(), n0);
                assert(timeout == 0);
                assert(ops.len() == 1000);
                assert forall|i: int| 0 <= i < ops.len() implies (#[trigger] ops[i]).0 == 2 && ops[i].1.len() != 6 by {
                    assert(is_poll(ops[i]));
                }
                assert(data_exchange(ops, Err::<[u8; 16], SdCardError>(SdCardError::CommandTimeout)));
            }
            return Err(SdCardError::CommandTimeout);
        }
        let mut data = [0u8; 16];
        let tx = [0xFFu8; 16];
        let got = spi.transfer(&tx, &mut data);
        proof { assert(spi.bus_oks().take(n0) =~= spi.bus_oks().drop_last().take(n0)); }
        let ghost after_data = spi.bus_log();
        proof {
            spi.lemma_aligned();
            assert(tx@ =~= Seq::new(16, |i: int| 0xFFu8));
            assert(spi.bus_log().take(n0) =~= polls.take(n0));
            assert forall|i: int| n0 <= i < spi.bus_oks().len() - 1 implies #[trigger] spi.bus_oks()[i] by {
                assert(spi.bus_oks()[i] == spi.bus_oks().drop_last()[i]);
            }
            lemma_stop(spi.bus_oks(), n0);
            let ops = spi.bus_log().skip(n0);
            assert forall|i: int| 0 <= i < ops.len() implies (#[trigger] ops[i]).0 == 2 && ops[i].1.len() != 6 by {
                assert(ops[i] == spi.bus_log()[n0 + i]);
                if n0 + i < polls.len() {
                    assert(spi.bus_log()[n0 + i] == polls[n0 + i]);
                    assert(is_poll(polls[n0 + i]));
                }
            }
        }
        spi_err(got)?;
        let tx_crc = [0xFFu8; 2];
        let mut rx_crc = [0u8; 2];
        let crc_read = spi.transfer(&tx_crc, &mut rx_crc);
        proof { assert(spi.bus_oks().take(n0) =~= spi.bus_oks().drop_last().take(n0)); }
        proof {
            spi.lemma_aligned();
            assert(tx_crc@ =~= seq![0xFFu8, 0xFF]);
            assert(spi.bus_log().take(n0) =~= after_data.take(n0));
            assert forall|i: int| n0 <= i < spi.bus_oks().len() - 1 implies #[trigger] spi.bus_oks()[i] by {
                assert(spi.bus_oks()[i] == spi.bus_oks().drop_last()[i]);
            }
            lemma_stop(spi.bus_oks(), n0);
            let ops = spi.bus_log().skip(n0);
            let p = ops.len() - 2;
            assert forall|i: int| 0 <= i < ops.len() implies (#[trigger] ops[i]).0 == 2 && ops[i].1.len() != 6 by {
                assert(ops[i] == spi.bus_log()[n0 + i]);
                if n0 + i < polls.len() {
                    assert(spi.bus_log()[n0 + i] == polls[n0 + i]);
                    assert(is_poll(polls[n0 + i]));
                } else if n0 + i < after_data.len() {
                    assert(spi.bus_log()[n0 + i] == after_data[n0 + i]);
                }
            }
            assert forall|i: int| 0 <= i < p implies #[trigger] is_poll(ops[i]) by {
                assert(ops[i] == polls[n0 + i]);
            }
            assert forall|i: int| 0 <= i < p - 1 implies (#[trigger] ops[i]).2[0] != DATA_START_TOKEN by {
                assert(ops[i] == polls[n0 + i]);
            }
            assert(ops[p - 1] == polls.last());
            assert(ops[p] == after_data.last());
        }
        spi_err(crc_read)?;
        Ok(data)
    }

    /// Reads a 16-byte register (CSD or CID): the command must answer without
    /// error, then its data block is read (see `read_data`).
    pub fn read_register<T: SpiInterface>(&self, spi: &mut TracedBus<T>, cmd: u8) -> (r: SdCardResult<[u8; 16]>)
        requires
            cmd < 64,
        ensures
            final(spi).bus_log().len() > old(spi).bus_log().len(),
            final(spi).bus_log().take(old(spi).bus_log().len() as int) == old(spi).bus_log(),
            final(spi).bus_log()[old(spi).bus_log().len() as int] == transfer_op(
                frame_of(cmd, 0),
                final(spi).bus_log()[old(spi).bus_log().len() as int].2,
            ),
            forall|i: int| old(spi).bus_log().len() < i < final(spi).bus_log().len()
                ==> (#[trigger] final(spi).bus_log()[i]).0 == 2 && final(spi).bus_log()[i].1.len() != 6,
            r matches Ok(d) ==> {
                let n = final(spi).bus_log().len();
                &&& n >= old(spi).bus_log().len() + 3
                &&& final(spi).bus_log()[n - 2] == transfer_op(Seq::new(16, |i: int| 0xFFu8), d@)
                &&& final(spi).bus_log()[n - 1].1 == seq![0xFFu8, 0xFF]
            },
    {
        let ghost start = spi.bus_log();
        let ghost n0 = start.len() as int;
        let response = self.send_command(spi, SdCommand::new(cmd, 0));
        let ghost log1 = spi.bus_log();
        proof {
            lemma_frame_of_start(cmd, 0);
            assert(log1.skip(n0)[0] == log1[n0]);
        }
        let response = response?;
        if response.has_error() {
            return Err(SdCardError::CommandError);
        }
        let d = self.read_data(spi);
        proof {
            let ops = spi.bus_log().skip(log1.len() as int);
            assert(spi.bus_log().take(n0) =~= log1.take(n0));
            assert(spi.bus_log()[n0] == log1[n0]);
            assert forall|i: int| n0 < i < spi.bus_log().len() implies (#[trigger] spi.bus_log()[i]).0 == 2
                && spi.bus_log()[i].1.len() != 6 by {
                if i < log1.len() {
                    assert(spi.bus_log()[i] == log1[i]);
                } else {
                    assert(spi.bus_log()[i] == ops[i - log1.len()]);
                }
            }
            if d is Ok {
                let n = spi.bus_log().len();
                assert(spi.bus_log()[n - 2] == ops[ops.len() - 2]);
                assert(spi.bus_log()[n - 1] == ops[ops.len() - 1]);
            }
        }
        d
    }

    /// Sends `count` bytes of 0xFF (eight clocks each) in chunks of 16.
    pub fn send_clocks<T: SpiInterface>(&self, spi: &mut TracedBus<T>, count: usize) -> (r: SdCardResult<()>)
        ensures
            final(spi).bus_log().len() >= old(spi).bus_log().len(),
            final(spi).bus_log().take(old(spi).bus_log().len() as int) == old(spi).bus_log(),
            final(spi).bus_oks().take(old(spi).bus_log().len() as int) == old(spi).bus_oks(),
            forall|i: int| old(spi).bus_log().len() <= i < final(spi).bus_log().len() ==> {
                &&& (#[trigger] final(spi).bus_log()[i]).0 == 2
                &&& final(spi).bus_log()[i].1.len() <= 16
                &&& forall|j: int| 0 <= j < final(spi).bus_log()[i].1.len() ==> final(spi).bus_log()[i].1[j] == 0xFF
            },
            r is Err ==> r == Err::<(), SdCardError>(SdCardError::SpiError),
            stopped(final(spi).bus_oks().skip(old(spi).bus_log().len() as int), r is Err),
            0 < count <= 16 ==> final(spi).bus_log().len() == old(spi).bus_log().len() + 1
                && final(spi).bus_log().last().1 == Seq::new(count as nat, |i: int| 0xFFu8),
    {
        let ghost start = spi.bus_log();
        let ghost n0 = start.len() as int;
        let ghost start_oks = spi.bus_oks();
        proof {
            spi.lemma_aligned();
            assert(spi.bus_oks().skip(n0) =~= Seq::<bool>::empty());
        }
        let tx = [0xFFu8; 16];
        let mut rx = [0u8; 16];
        let mut remaining = count;
        while remaining > 0
            invariant
                n0 == start.len(),
                start == old(spi).bus_log(),
                spi.bus_log().len() >= n0,
                spi.bus_log().take(n0) == start,
                start_oks == old(spi).bus_oks(),
                spi.bus_oks().take(n0) == start_oks,
                remaining <= count,
                remaining == count ==> spi.bus_log().len() == n0,
                spi.bus_oks().len() == spi.bus_log().len(),
                forall|i: int| n0 <= i < spi.bus_oks().len() ==> #[trigger] spi.bus_oks()[i],
                spi.bus_log().len() > n0 ==> stopped(spi.bus_oks().skip(n0), false),
                spi.bus_log().len() == n0 ==> spi.bus_oks().skip(n0) =~= Seq::<bool>::empty(),
                count <= 16 && remaining < count ==> remaining == 0 && spi.bus_log().len() == n0 + 1
                    && spi.bus_log().last().1 == Seq::new(count as nat, |i: int| 0xFFu8),
                forall|k: int| 0 <= k < 16 ==> tx@[k] == 0xFF,
                forall|i: int| n0 <= i < spi.bus_log().len() ==> {
                    &&& (#[trigger] spi.bus_log()[i]).0 == 2
                    &&& spi.bus_log()[i].1.len() <= 16
                    &&& forall|j: int| 0 <= j < spi.bus_log()[i].1.len() ==> spi.bus_log()[i].1[j] == 0xFF
                },
            decreases remaining,
        {
            let chunk_size = if remaining < 16 { remaining } else { 16 };
            let mut i: usize = 0;
            let mut tx_chunk: Vec<u8> = Vec::new();
            let mut rx_chunk: Vec<u8> = Vec::new();
            while i < chunk_size
                invariant
                    i <= chunk_size <= 16,
                    forall|k: int| 0 <= k < 16 ==> tx@[k] == 0xFF,
                    tx_chunk@.len() == i,
                    forall|k: int| 0 <= k < i ==> tx_chunk@[k] == 0xFF,
                decreases chunk_size - i,
            {
                tx_chunk.push(tx[i]);
                rx_chunk.push(rx[i]);
                i = i + 1;
            }
            let ghost before = spi.bus_log();
            let ghost before_oks = spi.bus_oks();
            let sent = spi.transfer(tx_chunk.as_slice(), rx_chunk.as_mut_slice());
            proof { assert(spi.bus_oks().take(n0) =~= spi.bus_oks().drop_last().take(n0)); }
            proof {
                spi.lemma_aligned();
                assert forall|i: int| n0 <= i < spi.bus_oks().len() - 1 implies #[trigger] spi.bus_oks()[i] by {
                    assert(spi.bus_oks()[i] == before_oks[i]);
                }
                lemma_stop(spi.bus_oks(), n0);
                assert(spi.bus_log().take(n0) =~= before.take(n0));
                assert forall|i: int| n0 <= i < spi.bus_log().len() implies {
                    &&& (#[trigger] spi.bus_log()[i]).0 == 2
                    &&& spi.bus_log()[i].1.len() <= 16
                    &&& forall|j: int| 0 <= j < spi.bus_log()[i].1.len() ==> spi.bus_log()[i].1[j] == 0xFF
                } by {
                    if i < before.len() {
                        assert(spi.bus_log()[i] == before[i]);
                    }
                }
                if count <= 16 {
                    assert(tx_chunk@ =~= Seq::new(count as nat, |i: int| 0xFFu8));
                }
            }
            spi_err(sent)?;
            remaining = remaining - chunk_size;
        }
        Ok(())
    }

    /// The answers the card gave during the last initialization.
    pub open spec fn init_answers(&self) -> Seq<InitAnswer> {
        self.last_init@.0
    }

    /// Where, in the bus record of the last initialization, the use of the
    /// bus behind each answer starts (and, last, where the record ends).
    pub open spec fn init_cuts(&self) -> Seq<int> {
        self.last_init@.1
    }

    /// Initializes the card, one use of the bus after the other, each chosen
    /// by `init_step` from the answers so far: chip select released, ten
    /// bytes of clocks, chip select asserted, CMD0, CMD8, the ACMD41
    /// attempts, CMD58, the CSD and the CID, CMD16 for a standard-capacity
    /// card, and chip select released. The bus record of the call is the
    /// transcript of the answers (see `init_transcript`); the result and
    /// the card information are those of the state the answers lead to, and
    /// the card is `Ready` exactly on success.
    pub fn init<T: SpiInterface>(&mut self, spi: &mut TracedBus<T>) -> (r: SdCardResult<()>)
        ensures
            final(spi).bus_log().len() >= old(spi).bus_log().len(),
            final(spi).bus_log().take(old(spi).bus_log().len() as int) == old(spi).bus_log(),
            final(spi).bus_oks().take(old(spi).bus_log().len() as int) == old(spi).bus_oks(),
            init_transcript(
                start_state(old(self).info),
                final(self).init_answers(),
                final(self).init_cuts(),
                final(spi).bus_log().skip(old(spi).bus_log().len() as int),
                final(spi).bus_oks().skip(old(spi).bus_log().len() as int),
            ),
            run_state(start_state(old(self).info), final(self).init_answers()).stage == InitStage::Done,
            r == run_state(start_state(old(self).info), final(self).init_answers()).outcome,
            final(self).info == run_state(start_state(old(self).info), final(self).init_answers()).info,
            r is Ok ==> final(self).state == SdCardState::Ready,
            r is Err ==> final(self).state == SdCardState::Initializing,
    {
        let ghost start = spi.bus_log();
        let ghost n0 = start.len() as int;
        proof { spi.lemma_aligned(); }
        let ghost start_oks = spi.bus_oks();
        self.state = SdCardState::Initializing;
        let mut st = InitState::start(self.info);
        let ghost s0 = st;
        let ghost mut answers: Seq<InitAnswer> = Seq::empty();
        let ghost mut cuts: Seq<int> = seq![0int];
        proof {
            assert(spi.bus_log().take(n0) =~= start);
            assert(spi.bus_oks().take(n0) =~= start_oks);
            assert(spi.bus_log().skip(n0) =~= Seq::<(u8, Seq<u8>, Seq<u8>)>::empty());
            assert(spi.bus_oks().skip(n0) =~= Seq::<bool>::empty());
            assert(answers.len() == 0);
            assert(run_state(s0, answers) == s0);
        }
        while !st.is_done()
            invariant
                n0 == start.len(),
                start == old(spi).bus_log(),
                start_oks == old(spi).bus_oks(),
                spi.bus_log().len() >= n0,
                spi.bus_log().take(n0) == start,
                spi.bus_oks().take(n0) == start_oks,
                spi.bus_oks().len() == spi.bus_log().len(),
                s0 == start_state(old(self).info),
                st.wf(),
                st == run_state(s0, answers),
                init_transcript(s0, answers, cuts, spi.bus_log().skip(n0), spi.bus_oks().skip(n0)),
                self.state == SdCardState::Initializing,
            decreases progress(st),
        {
            let ghost before = spi.bus_log();
            let ghost before_oks = spi.bus_oks();
            let act = st.action();
            let ans = match act {
                InitAction::Release => {
                    let done = spi.cs_inactive();
                    proof {
                        reveal(step_exchange);
                        assert(spi.bus_log().skip(before.len() as int) =~= seq![release_op()]);
                        assert(spi.bus_oks().skip(before.len() as int) =~= seq![done is Ok]);
                    }
                    InitAnswer::Bus(done.is_ok())
                },
                InitAction::Clocks => {
                    let done = self.send_clocks(spi, 10);
                    proof {
                        reveal(step_exchange);
                        spi.lemma_aligned();
                        let seg = spi.bus_log().skip(before.len() as int);
                        assert(seg[0] == spi.bus_log().last());
                        let oseg = spi.bus_oks().skip(before.len() as int);
                        assert(oseg.len() == 1);
                        assert(oseg.last() == oseg[0]);
                    }
                    InitAnswer::Bus(done.is_ok())
                },
                InitAction::Select => {
                    let done = spi.cs_active();
                    proof {
                        reveal(step_exchange);
                        assert(spi.bus_log().skip(before.len() as int) =~= seq![select_op()]);
                        assert(spi.bus_oks().skip(before.len() as int) =~= seq![done is Ok]);
                    }
                    InitAnswer::Bus(done.is_ok())
                },
                InitAction::Command(index, arg) => {
                    let cmd = SdCommand::new(index, arg);
                    let answer = self.send_command(spi, cmd);
                    proof {
                        reveal(step_exchange);
                        spi.lemma_aligned();
                        assert(cmd == command(index, arg));
                    }
                    InitAnswer::Response(answer)
                },
                InitAction::ReadData => {
                    let data = self.read_data(spi);
                    proof {
                        reveal(step_exchange);
                        spi.lemma_aligned();
                    }
                    InitAnswer::Data(data)
                },
                InitAction::Stop => {
                    proof { assert(false); }
                    InitAnswer::Bus(false)
                },
            };
            proof {
                spi.lemma_aligned();
                let ops = before.skip(n0);
                let oks = before_oks.skip(n0);
                let new_ops = spi.bus_log().skip(n0);
                let new_oks = spi.bus_oks().skip(n0);
                assert(spi.bus_log().take(before.len() as int) == before);
                assert(spi.bus_oks().take(before.len() as int) == before_oks);
                assert forall|k: int| 0 <= k < ops.len() implies #[trigger] new_ops[k] == ops[k] by {
                    assert(spi.bus_log().take(before.len() as int)[n0 + k] == before[n0 + k]);
                }
                assert forall|k: int| 0 <= k < oks.len() implies #[trigger] new_oks[k] == oks[k] by {
                    assert(spi.bus_oks().take(before.len() as int)[n0 + k] == before_oks[n0 + k]);
                }
                assert(new_ops.take(ops.len() as int) =~= ops);
                assert(new_oks.take(oks.len() as int) =~= oks);
                assert(new_ops.skip(ops.len() as int) =~= spi.bus_log().skip(before.len() as int));
                assert(new_oks.skip(ops.len() as int) =~= spi.bus_oks().skip(before.len() as int));
                assert forall|k: int| 0 <= k < n0 implies #[trigger] spi.bus_log().take(n0)[k] == start[k] by {
                    assert(spi.bus_log().take(before.len() as int)[k] == before[k]);
                    assert(before.take(n0)[k] == start[k]);
                }
                assert(spi.bus_log().take(n0) =~= start);
                assert forall|k: int| 0 <= k < n0 implies #[trigger] spi.bus_oks().take(n0)[k] == start_oks[k] by {
                    assert(spi.bus_oks().take(before.len() as int)[k] == before_oks[k]);
                    assert(before_oks.take(n0)[k] == start_oks[k]);
                }
                assert(spi.bus_oks().take(n0) =~= start_oks);
                lemma_transcript_push(s0, answers, cuts, ops, oks, new_ops, new_oks, ans);
                answers = answers.push(ans);
                cuts = cuts.push(new_ops.len() as int);
            }
            st = init_step(&st, &ans);
        }
        self.info = st.info;
        self.last_init = Ghost((answers, cuts));
        match st.outcome {
            Ok(()) => {
                self.state = SdCardState::Ready;
            },
            Err(_) => {},
        }
        st.outcome
    }

    pub fn get_info(&self) -> (i: &SdCardInfo)
        ensures
            *i == self.info,
    {
        &self.info
    }

    pub fn get_state(&self) -> (s: SdCardState)
        ensures
            s == self.state,
    {
        self.state
    }

    pub fn is_ready(&self) -> (b: bool)
        ensures
            b == (self.state == SdCardState::Ready),
    {
        self.state == SdCardState::Ready
    }
}

} // verus!
