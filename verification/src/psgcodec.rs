//! The dictionary/bit-flag variant of the codec.
//!
//! Each group of 8 commands is prepended with a flag byte, where each bit
//! says whether the corresponding command is a distinguished compressible
//! write; for those the command byte is stripped and only the argument byte
//! is kept. Long wait commands are shortened through a table of up to 16
//! distinct durations, filled in first-seen order; a duration found in the
//! table is replaced by one byte encoding its index. The table is serialized
//! once, as a fixed 39-byte side block.

use vstd::prelude::*;
use crate::bytestream::ByteStream;
use crate::codec::Codec;
use crate::specification::{
    UNDEFINED,
    NOP,
    PSG_WRITE,
    WAIT_LONG,
    WAIT_LONG_THRU_LUT,
    DATA_BLOCK,
    spec_num_argument_bytes,
    num_argument_bytes,
};

verus! {

/// Selector for the side-channel query returning the serialized duration table.
pub const GET_LONG_WAIT_LUT: u32 = 0;

pub struct PsgCodec {
    /// The codec's output data
    pub output: ByteStream,
    /// Data that has been written to the codec but not yet been fully processed
    pub pending_data: Vec<u8>,
    /// A lookup table for compression of long wait commands
    pub long_wait_table: Vec<u16>,
    pub current_command: u8,
    pub remaning_argument_bytes: u32,
    pub long_wait_duration: u16,
    pub flags: u8,
    pub num_flags: u8,
}

/// The codec state, as spec-level values.
pub struct PsgModel {
    pub output: Seq<u8>,
    pub pending: Seq<u8>,
    pub table: Seq<u16>,
    pub current: u8,
    pub remaining: u32,
    pub duration: u16,
    pub flags: u8,
    pub num_flags: u8,
}

impl View for PsgCodec {
    type V = PsgModel;

    open spec fn view(&self) -> PsgModel {
        PsgModel {
            output: self.output@,
            pending: self.pending_data@,
            table: self.long_wait_table@,
            current: self.current_command,
            remaining: self.remaning_argument_bytes,
            duration: self.long_wait_duration,
            flags: self.flags,
            num_flags: self.num_flags,
        }
    }
}

/// The smallest index `>= i` at which `table` holds `d`, if any.
pub open spec fn find_idx(table: Seq<u16>, d: u16, i: int) -> Option<int>
    decreases table.len() - i,
{
    if i < 0 || i >= table.len() {
        None
    } else if table[i] == d {
        Some(i)
    } else {
        find_idx(table, d, i + 1)
    }
}

impl PsgModel {
    pub open spec fn inv(self) -> bool {
        &&& self.num_flags <= 8
        &&& self.table.len() <= 16
        &&& (self.current == WAIT_LONG ==> 1 <= self.remaining <= 2)
    }
}

/// One argument byte arriving at the codec while a command is in flight.
pub open spec fn psg_handle_argument(m: PsgModel, arg: u8) -> PsgModel
    recommends
        m.inv(),
        m.remaining > 0,
{
    let m1 = if m.current == WAIT_LONG {
        let dur = m.duration | ((arg as u16) << ((2 - m.remaining) * 8));
        let ma = PsgModel { duration: dur, ..m };
        if m.remaining == 1 {
            match find_idx(m.table, dur, 0) {
                Some(i) => PsgModel {
                    pending: ma.pending.push(WAIT_LONG_THRU_LUT | (i as u8)),
                    ..ma
                },
                None => if m.table.len() < 16 {
                    PsgModel {
                        pending: ma.pending.push(WAIT_LONG_THRU_LUT | (m.table.len() as u8)),
                        table: ma.table.push(dur),
                        ..ma
                    }
                } else {
                    PsgModel {
                        pending: ma.pending + seq![WAIT_LONG, (dur & 0xFF) as u8, (dur >> 8) as u8],
                        ..ma
                    }
                },
            }
        } else {
            ma
        }
    } else {
        PsgModel { pending: m.pending.push(arg), ..m }
    };
    let m2 = if m1.remaining > 0 {
        PsgModel { remaining: (m1.remaining - 1) as u32, ..m1 }
    } else {
        m1
    };
    if m2.remaining == 0 {
        PsgModel { current: UNDEFINED, ..m2 }
    } else {
        m2
    }
}

/// Flushing the in-flight batch: pad the unfilled slots with the reserved
/// no-op marker, emit one flag byte followed by the 8 buffered payload
/// entries, and reset the batch state. With an empty batch, do nothing.
pub open spec fn psg_flush_spec(m: PsgModel) -> PsgModel
    recommends
        m.inv(),
{
    if m.num_flags > 0 {
        PsgModel {
            output: m.output.push(m.flags) + m.pending + Seq::new(
                (8 - m.num_flags) as nat,
                |i: int| NOP,
            ),
            pending: Seq::empty(),
            flags: 0,
            num_flags: 0,
            ..m
        }
    } else {
        m
    }
}

/// One byte arriving at the codec: an argument byte of the in-flight
/// command, or a new command byte. The batch is flushed as soon as its 8th
/// slot fills, that is, at the write that completes the 8th command.
pub open spec fn psg_write_spec(m: PsgModel, c: u8) -> PsgModel
    recommends
        m.inv(),
{
    if m.remaining > 0 {
        let m1 = psg_handle_argument(m, c);
        if m1.remaining == 0 && m1.num_flags == 8 {
            psg_flush_spec(m1)
        } else {
            m1
        }
    } else {
        let m0 = if m.num_flags == 8 {
            psg_flush_spec(m)
        } else {
            m
        };
        let m1 = PsgModel { current: c, remaining: spec_num_argument_bytes(c), ..m0 };
        let m2 = if c == PSG_WRITE {
            PsgModel { flags: m1.flags | (1u8 << m1.num_flags), ..m1 }
        } else if c == WAIT_LONG {
            PsgModel { duration: 0, ..m1 }
        } else {
            PsgModel { pending: m1.pending.push(c), ..m1 }
        };
        let m3 = PsgModel { num_flags: (m2.num_flags + 1) as u8, ..m2 };
        if m3.remaining == 0 && m3.num_flags == 8 {
            psg_flush_spec(m3)
        } else {
            m3
        }
    }
}

/// A whole sequence of bytes arriving at the codec, in order.
pub open spec fn psg_write_seq(m: PsgModel, s: Seq<u8>) -> PsgModel
    decreases s.len(),
{
    if s.len() == 0 {
        m
    } else {
        psg_write_seq(psg_write_spec(m, s[0]), s.subrange(1, s.len() as int))
    }
}

/// The fixed 39-byte serialized duration table: a 7-byte sub-block header
/// followed by 16 two-byte little-endian duration slots, unused slots
/// zero-filled.
pub open spec fn lut_block_spec(table: Seq<u16>) -> Seq<u8> {
    Seq::new(
        39,
        |i: int|
            if i == 0 {
                DATA_BLOCK
            } else if i == 1 {
                0x66u8
            } else if i == 2 {
                0x02u8
            } else if i == 3 {
                0x20u8
            } else if i < 7 {
                0u8
            } else if (i - 7) / 2 < table.len() {
                let w = table[(i - 7) / 2];
                if (i - 7) % 2 == 0 {
                    (w & 0xFF) as u8
                } else {
                    (w >> 8) as u8
                }
            } else {
                0u8
            },
    )
}

/// First-match lookup of `d` in `table`.
fn find_in_table(table: &Vec<u16>, d: u16) -> (r: Option<usize>)
    ensures
        match r {
            Some(i) => {
                &&& find_idx(table@, d, 0) == Some(i as int)
                &&& 0 <= i < table@.len()
                &&& table@[i as int] == d
            },
            None => find_idx(table@, d, 0) is None,
        },
{
    let mut i: usize = 0;
    while i < table.len()
        invariant
            0 <= i <= table@.len(),
            find_idx(table@, d, 0) == find_idx(table@, d, i as int),
        decreases table@.len() - i,
    {
        if table[i] == d {
            return Some(i);
        }
        i = i + 1;
    }
    None
}

impl PsgCodec {
    fn handle_argument(&mut self, arg: u8)
        requires
            old(self)@.inv(),
            old(self).output.wf(),
            old(self).output.spec_pos() == 0,
            old(self)@.remaining > 0,
        ensures
            final(self)@ == psg_handle_argument(old(self)@, arg),
            final(self)@.inv(),
            final(self).output.wf(),
            final(self).output.spec_pos() == 0,
    {
        if self.current_command == WAIT_LONG {
            let shifted_arg: u16 = (arg as u16) << ((2 - self.remaning_argument_bytes) * 8);
            self.long_wait_duration = self.long_wait_duration | shifted_arg;

            if self.remaning_argument_bytes == 1 {
                let pos = find_in_table(&self.long_wait_table, self.long_wait_duration);
                match pos {
                    Some(idx) => {
                        self.pending_data.push(WAIT_LONG_THRU_LUT | (idx as u8));
                    },
                    None => {
                        if self.long_wait_table.len() < 16 {
                            // No match found, but there's space left in the table, so add the current value
                            self.pending_data.push(
                                WAIT_LONG_THRU_LUT | (self.long_wait_table.len() as u8),
                            );
                            self.long_wait_table.push(self.long_wait_duration);
                        } else {
                            // No match could be found in the table. Store the entire command uncompressed.
                            self.pending_data.push(WAIT_LONG);
                            self.pending_data.push((self.long_wait_duration & 0xFF) as u8);
                            self.pending_data.push((self.long_wait_duration >> 8) as u8);
                        }
                    },
                }
            }
        } else {
            self.pending_data.push(arg);
        }
        if self.remaning_argument_bytes > 0 {
            self.remaning_argument_bytes = self.remaning_argument_bytes - 1;
        }
        if self.remaning_argument_bytes == 0 {
            self.current_command = UNDEFINED;
        }
        proof {
            assert(self@.pending =~= psg_handle_argument(old(self)@, arg).pending);
        }
    }
}

impl Codec for PsgCodec {
    open spec fn out_bytes(&self) -> Seq<u8> {
        self.output@
    }

    open spec fn inv(&self) -> bool {
        self@.inv() && self.output.wf() && self.output.spec_pos() == 0
    }

    open spec fn new_post(output: ByteStream, r: Self) -> bool {
        r@ == (PsgModel {
            output: output@,
            pending: Seq::<u8>::empty(),
            table: Seq::<u16>::empty(),
            current: UNDEFINED,
            remaining: 0,
            duration: 0,
            flags: 0,
            num_flags: 0,
        })
    }

    open spec fn passthrough_post(pre: Self, post: Self, c: u8) -> bool {
        post@ == (PsgModel { output: pre@.output.push(c), ..pre@ })
    }

    open spec fn write_post(pre: Self, post: Self, c: u8) -> bool {
        post@ == psg_write_spec(pre@, c)
    }

    open spec fn flush_post(pre: Self, post: Self) -> bool {
        post@ == psg_flush_spec(pre@)
    }

    open spec fn extra_data_post(&self, what: u32, r: Option<Vec<u8>>) -> bool {
        if what == GET_LONG_WAIT_LUT {
            match r {
                Some(v) => v@ == lut_block_spec(self@.table),
                None => false,
            }
        } else {
            r is None
        }
    }

    fn new(output: ByteStream) -> (r: Self) {
        PsgCodec {
            output,
            pending_data: Vec::new(),
            long_wait_table: Vec::new(),
            current_command: UNDEFINED,
            remaning_argument_bytes: 0,
            long_wait_duration: 0,
            flags: 0,
            num_flags: 0,
        }
    }

    fn get_extra_data(&self, what: u32) -> (r: Option<Vec<u8>>) {
        match what {
            GET_LONG_WAIT_LUT => {
                let mut table: Vec<u8> = Vec::new();
                table.push(DATA_BLOCK);
                table.push(0x66);
                table.push(0x02);
                table.push(0x20);
                table.push(0x00);
                table.push(0x00);
                table.push(0x00);
                let mut i: usize = 0;
                while i < 16
                    invariant
                        0 <= i <= 16,
                        self@.table.len() <= 16,
                        self@.table == self.long_wait_table@,
                        table@.len() == 7 + 2 * i,
                        forall|j: int|
                            0 <= j < 7 + 2 * i ==> table@[j] == lut_block_spec(self@.table)[j],
                    decreases 16 - i,
                {
                    if i < self.long_wait_table.len() {
                        let wait = self.long_wait_table[i];
                        table.push((wait & 0xFF) as u8);
                        table.push((wait >> 8) as u8);
                    } else {
                        table.push(0);
                        table.push(0);
                    }
                    i = i + 1;
                }
                proof {
                    assert(table@ =~= lut_block_spec(self@.table));
                }
                Some(table)
            },
            _ => None,
        }
    }

    fn output_len(&self) -> (n: usize) {
        self.output.len()
    }

    fn passthrough(&mut self, c: u8) {
        self.output.write(c);
    }

    fn write(&mut self, c: u8) {
        if self.remaning_argument_bytes > 0 {
            self.handle_argument(c);
            if self.remaning_argument_bytes == 0 && self.num_flags == 8 {
                // the in-flight command completed the batch's 8th slot
                self.flush();
            }
        } else {
            // New command
            if self.num_flags == 8 {
                self.flush();
            }
            self.current_command = c;
            self.remaning_argument_bytes = num_argument_bytes(self.current_command);

            if self.current_command == PSG_WRITE {
                self.flags = self.flags | (1u8 << self.num_flags);
            } else if self.current_command == WAIT_LONG {
                self.long_wait_duration = 0;
            } else {
                self.pending_data.push(c);
            }
            self.num_flags = self.num_flags + 1;
            if self.remaning_argument_bytes == 0 && self.num_flags == 8 {
                // a no-argument command filled the batch's 8th slot
                self.flush();
            }
        }
    }

    fn flush(&mut self) {
        if self.num_flags > 0 {
            while self.num_flags < 8
                invariant
                    old(self)@.num_flags <= self.num_flags <= 8,
                    self@ == (PsgModel {
                        pending: old(self)@.pending + Seq::new(
                            (self.num_flags - old(self)@.num_flags) as nat,
                            |i: int| NOP,
                        ),
                        num_flags: self@.num_flags,
                        ..old(self)@
                    }),
                    self.output.wf(),
                    self.output.spec_pos() == 0,
                decreases 8 - self.num_flags,
            {
                self.pending_data.push(NOP);
                self.num_flags = self.num_flags + 1;
                proof {
                    assert(self@.pending =~= old(self)@.pending + Seq::new(
                        (self.num_flags - old(self)@.num_flags) as nat,
                        |i: int| NOP,
                    ));
                }
            }
            self.output.write(self.flags);
            let mut pending: Vec<u8> = Vec::new();
            core::mem::swap(&mut pending, &mut self.pending_data);
            self.output.write_n(pending.as_slice());
            self.flags = 0;
            self.num_flags = 0;
            proof {
                assert(self@.output =~= psg_flush_spec(old(self)@).output);
                assert(self@.pending =~= psg_flush_spec(old(self)@).pending);
            }
        }
    }
}

/// Law of the duration dictionary: feeding one whole long-wait command with
/// duration `d` (little-endian `lo`, `hi`) to a codec between commands
/// leaves the output untouched, consumes one batch slot, and buffers:
/// the existing index when `d` is already in the table (first match);
/// a fresh index in first-seen order when there is room;
/// the original three-byte uncompressed form when the table is full.
pub proof fn lemma_long_wait_dictionary(m: PsgModel, lo: u8, hi: u8)
    requires
        m.inv(),
        m.remaining == 0,
        // the command's own slot does not fill the batch, so no flush
        // interleaves with the encoding stated here
        m.num_flags < 7,
    ensures
        ({
            let d = (lo as u16) | ((hi as u16) << 8);
            let m3 = psg_write_seq(m, seq![WAIT_LONG, lo, hi]);
            &&& m3.output == m.output
            &&& m3.num_flags == m.num_flags + 1
            &&& m3.remaining == 0
            &&& match find_idx(m.table, d, 0) {
                Some(i) => m3.pending == m.pending.push(WAIT_LONG_THRU_LUT | (i as u8))
                    && m3.table == m.table,
                None => if m.table.len() < 16 {
                    m3.pending == m.pending.push(WAIT_LONG_THRU_LUT | (m.table.len() as u8))
                        && m3.table == m.table.push(d)
                } else {
                    m3.pending == m.pending + seq![WAIT_LONG, lo, hi] && m3.table == m.table
                },
            }
        }),
{
    let d = (lo as u16) | ((hi as u16) << 8);
    let s = seq![WAIT_LONG, lo, hi];
    let m1 = psg_write_spec(m, WAIT_LONG);
    let m2 = psg_write_spec(m1, lo);
    let m3v = psg_write_spec(m2, hi);
    assert(s[0] == WAIT_LONG && s.subrange(1, 3) =~= seq![lo, hi]);
    assert(seq![lo, hi][0] == lo && seq![lo, hi].subrange(1, 2) =~= seq![hi]);
    assert(seq![hi][0] == hi && seq![hi].subrange(1, 1) =~= Seq::<u8>::empty());
    assert(psg_write_seq(m3v, Seq::<u8>::empty()) == m3v);
    assert(psg_write_seq(m2, seq![hi]) == m3v);
    assert(psg_write_seq(m1, seq![lo, hi]) == psg_write_seq(m2, seq![hi]));
    assert(psg_write_seq(m, s) == psg_write_seq(m1, s.subrange(1, 3)));
    assert(psg_write_seq(m, s) == m3v);
    // after the command byte: a fresh long-wait command is in flight
    assert(m1.remaining == 2 && m1.current == WAIT_LONG && m1.duration == 0);
    // the first argument byte lands in the low half of the duration
    assert((2 - m1.remaining) * 8 == 0);
    assert(0u16 | ((lo as u16) << 0) == (lo as u16)) by (bit_vector);
    assert(m2.duration == lo as u16 && m2.remaining == 1 && m2.current == WAIT_LONG);
    // the second argument byte completes the duration, little-endian
    assert((2 - m2.remaining) * 8 == 8);
    if find_idx(m.table, d, 0) is None && m.table.len() >= 16 {
        assert(((lo as u16) | ((hi as u16) << 8)) & 0xFF == (lo as u16)) by (bit_vector);
        assert(((lo as u16) | ((hi as u16) << 8)) >> 8 == (hi as u16)) by (bit_vector);
        assert(m3v.pending =~= m.pending + seq![WAIT_LONG, lo, hi]);
    }
}

/// No two occupied dictionary slots hold the same duration.
pub open spec fn table_distinct(table: Seq<u16>) -> bool {
    forall|i: int, j: int| 0 <= i < j < table.len() ==> table[i] != table[j]
}

/// A failed lookup means the duration is nowhere in the table.
pub proof fn lemma_find_idx_none(table: Seq<u16>, d: u16, i: int)
    requires
        0 <= i,
        find_idx(table, d, i) is None,
    ensures
        forall|j: int| i <= j < table.len() ==> table[j] != d,
    decreases table.len() - i,
{
    if i < table.len() {
        lemma_find_idx_none(table, d, i + 1);
    }
}

/// Law of the duration dictionary's uniqueness: a duration is only ever
/// added after a failed lookup, so the dictionary never holds the same
/// duration twice.
pub proof fn lemma_table_stays_distinct(m: PsgModel, c: u8)
    requires
        table_distinct(m.table),
    ensures
        table_distinct(psg_write_spec(m, c).table),
{
    if m.remaining > 0 && m.current == WAIT_LONG && m.remaining == 1 {
        let dur = m.duration | ((c as u16) << ((2 - m.remaining) * 8));
        if find_idx(m.table, dur, 0) is None && m.table.len() < 16 {
            lemma_find_idx_none(m.table, dur, 0);
            let t2 = m.table.push(dur);
            assert forall|i: int, j: int| 0 <= i < j < t2.len() implies t2[i] != t2[j] by {
                if j == t2.len() - 1 {
                    assert(t2[i] == m.table[i]);
                }
            };
        }
    }
}

/// Law of batch flushing: an explicit flush of a batch holding
/// `num_flags` filled slots (fewer than or exactly 8) pads the remaining
/// slots with the reserved no-op marker and emits exactly one flag byte
/// followed by the buffered payload plus that padding, then resets the
/// batch. With exactly 8 slots filled, no padding is added.
pub proof fn lemma_flush_pads_batch(m: PsgModel)
    requires
        m.inv(),
        0 < m.num_flags,
    ensures
        ({
            let f = psg_flush_spec(m);
            &&& f.output == m.output.push(m.flags) + m.pending + Seq::new(
                (8 - m.num_flags) as nat,
                |i: int| NOP,
            )
            &&& f.pending == Seq::<u8>::empty()
            &&& f.num_flags == 0
            &&& f.flags == 0
            &&& m.num_flags == 8 ==> f.output == m.output.push(m.flags) + m.pending
        }),
{
    if m.num_flags == 8 {
        let f = psg_flush_spec(m);
        assert(Seq::new(0nat, |i: int| NOP) =~= Seq::<u8>::empty());
        assert(f.output =~= m.output.push(m.flags) + m.pending);
    }
}

/// Law of the implicit flush: the argument byte that completes the batch's
/// 8th slot emits the batch at once — one flag byte, then the 8 buffered
/// entries with no padding — and resets the batch state.
pub proof fn lemma_eighth_slot_fill_flushes(m: PsgModel, arg: u8)
    requires
        m.inv(),
        m.remaining == 1,
        m.current != WAIT_LONG,
        m.num_flags == 8,
    ensures
        ({
            let m2 = psg_write_spec(m, arg);
            &&& m2.output == m.output.push(m.flags) + m.pending.push(arg)
            &&& m2.pending == Seq::<u8>::empty()
            &&& m2.num_flags == 0
            &&& m2.flags == 0
        }),
{
    let m1 = psg_handle_argument(m, arg);
    let m2 = psg_write_spec(m, arg);
    assert(Seq::new(0nat, |i: int| NOP) =~= Seq::<u8>::empty());
    assert(m2.output =~= m.output.push(m.flags) + m.pending.push(arg));
}

/// Law of the implicit flush for a command without arguments: the command
/// byte that fills the batch's 8th slot emits the batch at once, again with
/// no padding.
pub proof fn lemma_eighth_slot_command_flushes(m: PsgModel, c: u8)
    requires
        m.inv(),
        m.remaining == 0,
        m.num_flags == 7,
        spec_num_argument_bytes(c) == 0,
        c != PSG_WRITE,
        c != WAIT_LONG,
    ensures
        ({
            let m2 = psg_write_spec(m, c);
            &&& m2.output == m.output.push(m.flags) + m.pending.push(c)
            &&& m2.pending == Seq::<u8>::empty()
            &&& m2.num_flags == 0
            &&& m2.flags == 0
        }),
{
    let m2 = psg_write_spec(m, c);
    assert(Seq::new(0nat, |i: int| NOP) =~= Seq::<u8>::empty());
    assert(m2.output =~= m.output.push(m.flags) + m.pending.push(c));
}

} // verus!
