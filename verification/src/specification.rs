//! Command vocabulary of the input stream: opcode constants, the static
//! argument-length table, and the fixed-layout file header record.

use vstd::prelude::*;
use crate::bytestream::le32_at;

verus! {

// Opcode values. NOP, UNDEFINED and WAIT_LONG_THRU_LUT are private to this
// transcoder; the rest belong to the input stream's command vocabulary.
pub const UNDEFINED: u8 = 0;

pub const NOP: u8 = 0x4E;

pub const GG_STEREO: u8 = 0x4F;

pub const PSG_WRITE: u8 = 0x50;

pub const YM2413_WRITE: u8 = 0x51;

pub const YM2612_LO_WRITE: u8 = 0x52;

pub const YM2612_HI_WRITE: u8 = 0x53;

pub const YM2151_WRITE: u8 = 0x54;

pub const WAIT_LONG: u8 = 0x61;

pub const WAIT_NTSC_FRAME: u8 = 0x62;

pub const WAIT_PAL_FRAME: u8 = 0x63;

pub const END_OF_SOUND_DATA: u8 = 0x66;

pub const DATA_BLOCK: u8 = 0x67;

pub const PCM_WRITE: u8 = 0x68;

pub const WAIT_1: u8 = 0x70;

pub const WAIT_16: u8 = 0x7F;

pub const YM2612_WRITE_LO_WAIT_0: u8 = 0x80;

pub const YM2612_WRITE_LO_WAIT_15: u8 = 0x8F;

pub const WAIT_LONG_THRU_LUT: u8 = 0x90;

pub const SEEK_PCM: u8 = 0xE0;

/// The number of argument bytes expected by command `cmd`.
pub open spec fn spec_num_argument_bytes(cmd: u8) -> u32 {
    if cmd == GG_STEREO || cmd == PSG_WRITE {
        1
    } else if YM2413_WRITE <= cmd <= YM2612_HI_WRITE {
        2
    } else if cmd == WAIT_LONG {
        2
    } else if cmd == SEEK_PCM {
        4
    } else {
        0
    }
}

/// Returns the number of argument bytes expected by command `cmd`.
#[verifier::when_used_as_spec(spec_num_argument_bytes)]
pub fn num_argument_bytes(cmd: u8) -> (n: u32)
    ensures
        n == spec_num_argument_bytes(cmd),
{
    if cmd == GG_STEREO || cmd == PSG_WRITE {
        1
    } else if YM2413_WRITE <= cmd && cmd <= YM2612_HI_WRITE {
        2
    } else if cmd == WAIT_LONG {
        2
    } else if cmd == SEEK_PCM {
        4
    } else {
        0
    }
}

/// The fixed-layout header record at the front of the input file, parsed
/// field by field from its little-endian byte layout.
pub struct FileHeader {
    pub magic: u32,
    pub eof_offset: u32,
    pub version: u32,
    pub psg_clock: u32,
    pub ym2413_clock: u32,
    pub gd3_offset: u32,
    pub total_samples: u32,
    pub loop_offset: u32,
    pub rate: u32,
    pub psg_feedback: u16,
    pub psg_lfsr_width: u8,
    pub psg_flags: u8,
    pub ym2612_clock: u32,
    pub ym2151_clock: u32,
    pub vgm_data_offset: u32,
}

/// Number of bytes the header record occupies.
pub const HEADER_RECORD_SIZE: usize = 0x38;

/// The header record denoted by the first `HEADER_RECORD_SIZE` bytes of `s`.
pub open spec fn spec_parse_header(s: Seq<u8>) -> FileHeader {
    FileHeader {
        magic: le32_at(s, 0x00),
        eof_offset: le32_at(s, 0x04),
        version: le32_at(s, 0x08),
        psg_clock: le32_at(s, 0x0C),
        ym2413_clock: le32_at(s, 0x10),
        gd3_offset: le32_at(s, 0x14),
        total_samples: le32_at(s, 0x18),
        loop_offset: le32_at(s, 0x1C),
        rate: le32_at(s, 0x20),
        psg_feedback: (le32_at(s, 0x24) & 0xFFFF) as u16,
        psg_lfsr_width: s[0x26],
        psg_flags: s[0x27],
        ym2612_clock: le32_at(s, 0x28),
        ym2151_clock: le32_at(s, 0x2C),
        vgm_data_offset: le32_at(s, 0x30),
    }
}

impl FileHeader {
    /// Parse the header record from the front of `data`, or `None` when too
    /// few bytes are present for all of its fields.
    pub fn parse(data: &Vec<u8>) -> (r: Option<FileHeader>)
        ensures
            match r {
                Some(h) => data@.len() >= HEADER_RECORD_SIZE && h == spec_parse_header(data@),
                None => data@.len() < HEADER_RECORD_SIZE,
            },
    {
        if data.len() < HEADER_RECORD_SIZE {
            return None;
        }
        let h = FileHeader {
            magic: read_le32(data, 0x00),
            eof_offset: read_le32(data, 0x04),
            version: read_le32(data, 0x08),
            psg_clock: read_le32(data, 0x0C),
            ym2413_clock: read_le32(data, 0x10),
            gd3_offset: read_le32(data, 0x14),
            total_samples: read_le32(data, 0x18),
            loop_offset: read_le32(data, 0x1C),
            rate: read_le32(data, 0x20),
            psg_feedback: (read_le32(data, 0x24) & 0xFFFF) as u16,
            psg_lfsr_width: data[0x26],
            psg_flags: data[0x27],
            ym2612_clock: read_le32(data, 0x28),
            ym2151_clock: read_le32(data, 0x2C),
            vgm_data_offset: read_le32(data, 0x30),
        };
        Some(h)
    }
}

/// Read the little-endian u32 at index `i` of `data`.
pub fn read_le32(data: &Vec<u8>, i: usize) -> (v: u32)
    requires
        i + 4 <= data@.len(),
    ensures
        v == le32_at(data@, i as int),
{
    let n = data.len();
    (data[i] as u32) | (data[i + 1] as u32) << 8 | (data[i + 2] as u32) << 16 | (data[i + 3]
        as u32) << 24
}

} // verus!
