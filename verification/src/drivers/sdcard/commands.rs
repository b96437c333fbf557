//! SD card commands: framing with CRC7, and R1 responses.
use vstd::prelude::*;

verus! {

pub const CMD0_GO_IDLE_STATE: u8 = 0;
pub const CMD1_SEND_OP_COND: u8 = 1;
pub const CMD8_SEND_IF_COND: u8 = 8;
pub const CMD9_SEND_CSD: u8 = 9;
pub const CMD10_SEND_CID: u8 = 10;
pub const CMD12_STOP_TRANSMISSION: u8 = 12;
pub const CMD16_SET_BLOCKLEN: u8 = 16;
pub const CMD17_READ_SINGLE_BLOCK: u8 = 17;
pub const CMD18_READ_MULTIPLE_BLOCK: u8 = 18;
pub const CMD24_WRITE_BLOCK: u8 = 24;
pub const CMD25_WRITE_MULTIPLE_BLOCK: u8 = 25;
pub const CMD55_APP_CMD: u8 = 55;
pub const CMD58_READ_OCR: u8 = 58;
pub const CMD59_CRC_ON_OFF: u8 = 59;
pub const ACMD41_SD_SEND_OP_COND: u8 = 41;
pub const R1_IDLE_STATE: u8 = 0x01;
pub const R1_ILLEGAL_COMMAND: u8 = 0x04;
pub const R1_COM_CRC_ERROR: u8 = 0x08;
pub const R1_MSB: u8 = 0x80;
pub const DATA_START_TOKEN: u8 = 0xFE;
pub const DATA_RESPONSE_MASK: u8 = 0x1F;
pub const DATA_RESPONSE_ACCEPTED: u8 = 0x05;

/// CRC7 (polynomial x^7 + x^3 + 1) register after shifting in the top `n`
/// bits of `data`, most significant first.
pub open spec fn crc7_bits(crc: u8, data: u8, n: nat) -> u8
    decreases n,
{
    if n == 0 {
        crc
    } else {
        let c = crc << 1u8;
        let c2 = if (data & 0x80) ^ (c & 0x80) != 0 { c ^ 0x09 } else { c };
        crc7_bits(c2, data << 1u8, (n - 1) as nat)
    }
}

/// CRC7 after one more byte.
pub open spec fn crc7_step(crc: u8, byte: u8) -> u8 {
    crc7_bits(crc, byte, 8) & 0x7F
}

/// The five bytes a command's CRC covers: start and command index, then the
/// argument, most significant byte first.
pub open spec fn command_frame(cmd: u8, arg: u32) -> Seq<u8> {
    seq![0x40 | cmd, (arg >> 24u32) as u8, (arg >> 16u32) as u8, (arg >> 8u32) as u8, arg as u8]
}

/// The CRC7 of a byte sequence.
pub open spec fn crc7_of(bytes: Seq<u8>) -> u8
    decreases bytes.len(),
{
    if bytes.len() == 0 {
        0
    } else {
        crc7_step(crc7_of(bytes.drop_last()), bytes.last())
    }
}

/// An SD command as sent over SPI.
#[derive(Debug, Clone, Copy, PartialEq, Eq, Structural)]
pub struct SdCommand {
    pub cmd: u8,
    pub arg: u32,
    pub crc: u8,
}

impl SdCommand {
    /// A command with its CRC7.
    pub fn new(cmd: u8, arg: u32) -> (c: Self)
        ensures
            c.cmd == cmd,
            c.arg == arg,
            c.crc == crc7_of(command_frame(cmd, arg)),
    {
        let crc = Self::calculate_crc(cmd, arg);
        SdCommand { cmd, arg, crc }
    }

    /// The six bytes sent on the bus: frame, then CRC with end bit.
    pub fn to_bytes(&self) -> (b: [u8; 6])
        ensures
            b@ == command_frame(self.cmd, self.arg).push(((self.crc << 1u8) | 1) as u8),
    {
        let b = [
            0x40 | self.cmd,
            (self.arg >> 24u32) as u8,
            (self.arg >> 16u32) as u8,
            (self.arg >> 8u32) as u8,
            self.arg as u8,
            (self.crc << 1u8) | 1,
        ];
        assert(b@ =~= command_frame(self.cmd, self.arg).push(((self.crc << 1u8) | 1) as u8));
        b
    }

    /// CRC7 of a command frame.
    pub fn calculate_crc(cmd: u8, arg: u32) -> (crc: u8)
        ensures
            crc == crc7_of(command_frame(cmd, arg)),
    {
        let data = [0x40 | cmd, (arg >> 24u32) as u8, (arg >> 16u32) as u8, (arg >> 8u32) as u8, arg as u8];
        let ghost frame = command_frame(cmd, arg);
        assert(data@ =~= frame);
        let mut crc: u8 = 0;
        let mut i: usize = 0;
        while i < 5
            invariant
                0 <= i <= 5,
                data@ == frame,
                frame.len() == 5,
                crc == crc7_of(frame.subrange(0, i as int)),
            decreases 5 - i,
        {
            assert(frame.subrange(0, i as int + 1).drop_last() =~= frame.subrange(0, i as int));
            crc = Self::crc7_byte(crc, data[i]);
            i = i + 1;
        }
        assert(frame.subrange(0, 5) =~= frame);
        crc
    }

    /// CRC7 register after one byte.
    pub fn crc7_byte(crc: u8, data: u8) -> (r: u8)
        ensures
            r == crc7_step(crc, data),
    {
        let mut c = crc;
        let mut d = data;
        let mut i: u8 = 0;
        while i < 8
            invariant
                0 <= i <= 8,
                crc7_bits(c, d, (8 - i) as nat) == crc7_bits(crc, data, 8),
            decreases 8 - i,
        {
            c = c << 1u8;
            if (d & 0x80) ^ (c & 0x80) != 0 {
                c = c ^ 0x09;
            }
            d = d << 1u8;
            i = i + 1;
        }
        c & 0x7F
    }
}

/// An SD card response: the R1 byte, and for R3/R7 four more bytes.
#[derive(Debug, Clone, Copy)]
pub struct SdResponse {
    pub r1: u8,
    pub data: [u8; 4],
    pub length: usize,
}

impl SdResponse {
    pub fn new(r1: u8) -> (r: Self)
        ensures
            r.r1 == r1,
            r.data@ == seq![0u8, 0u8, 0u8, 0u8],
            r.length == 1,
    {
        SdResponse { r1, data: [0u8; 4], length: 1 }
    }

    pub fn with_data(r1: u8, data: [u8; 4]) -> (r: Self)
        ensures
            r.r1 == r1,
            r.data == data,
            r.length == 5,
    {
        SdResponse { r1, data, length: 5 }
    }

    /// A response has its top bit clear.
    pub fn is_valid(&self) -> (b: bool)
        ensures
            b == (self.r1 & R1_MSB == 0),
    {
        (self.r1 & R1_MSB) == 0
    }

    pub fn is_idle(&self) -> (b: bool)
        ensures
            b == (self.r1 & R1_IDLE_STATE != 0),
    {
        (self.r1 & R1_IDLE_STATE) != 0
    }

    /// Any of the six error bits.
    pub fn has_error(&self) -> (b: bool)
        ensures
            b == (self.r1 & 0x7E != 0),
    {
        (self.r1 & 0x7E) != 0
    }
}

} // verus!
