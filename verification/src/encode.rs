//! The compression stage: the reduced command stream is parsed once more and
//! fed byte by byte into the selected codec variant, with an explicit flush
//! at the loop boundary (recording the translated loop position) and at end
//! of stream, where the in-flight batch is flushed before the end marker
//! itself goes through, outside any batch.

use vstd::prelude::*;
use crate::bytestream::{ByteStream, le32_at};
use crate::codec::Codec;
use crate::error::VgmError;
use crate::nullcodec::NullCodec;
use crate::psgcodec::{PsgCodec, PsgModel, psg_write_spec, psg_flush_spec, lut_block_spec, GET_LONG_WAIT_LUT};
use crate::specification::{
    GG_STEREO,
    PSG_WRITE,
    YM2413_WRITE,
    YM2151_WRITE,
    WAIT_LONG,
    END_OF_SOUND_DATA,
    DATA_BLOCK,
    SEEK_PCM,
};

verus! {

/// The codec selected for a run: one closed set of variants behind one
/// interface.
pub enum StreamCodec {
    Null(NullCodec),
    Psg(PsgCodec),
}

/// The state of whichever codec variant is running.
pub enum CodecState {
    Null(Seq<u8>),
    Psg(PsgModel),
}

/// The output bytes accumulated in a codec state.
pub open spec fn cs_out(s: CodecState) -> Seq<u8> {
    match s {
        CodecState::Null(out) => out,
        CodecState::Psg(m) => m.output,
    }
}

/// One byte arriving at the selected codec.
pub open spec fn cs_write(s: CodecState, c: u8) -> CodecState {
    match s {
        CodecState::Null(out) => CodecState::Null(out.push(c)),
        CodecState::Psg(m) => CodecState::Psg(psg_write_spec(m, c)),
    }
}

/// A sequence of bytes arriving at the selected codec, in order.
pub open spec fn cs_write_seq(s: CodecState, bytes: Seq<u8>) -> CodecState
    decreases bytes.len(),
{
    if bytes.len() == 0 {
        s
    } else {
        cs_write_seq(cs_write(s, bytes[0]), bytes.subrange(1, bytes.len() as int))
    }
}

/// One byte written straight through to the output, outside any batch.
pub open spec fn cs_passthrough(s: CodecState, c: u8) -> CodecState {
    match s {
        CodecState::Null(out) => CodecState::Null(out.push(c)),
        CodecState::Psg(m) => CodecState::Psg(PsgModel { output: m.output.push(c), ..m }),
    }
}

/// An explicit flush of the selected codec.
pub open spec fn cs_flush(s: CodecState) -> CodecState {
    match s {
        CodecState::Null(out) => CodecState::Null(out),
        CodecState::Psg(m) => CodecState::Psg(psg_flush_spec(m)),
    }
}

/// The side-channel block of the selected codec.
pub open spec fn cs_extra(s: CodecState, what: u32) -> Option<Seq<u8>> {
    match s {
        CodecState::Null(out) => None,
        CodecState::Psg(m) => if what == GET_LONG_WAIT_LUT {
            Some(lut_block_spec(m.table))
        } else {
            None
        },
    }
}

impl StreamCodec {
    pub open spec fn model(&self) -> CodecState {
        match self {
            StreamCodec::Null(n) => CodecState::Null(n.output@),
            StreamCodec::Psg(p) => CodecState::Psg(p@),
        }
    }

    pub open spec fn inv(&self) -> bool {
        match self {
            StreamCodec::Null(n) => n.inv(),
            StreamCodec::Psg(p) => Codec::inv(p),
        }
    }

    pub fn write(&mut self, c: u8)
        requires
            old(self).inv(),
        ensures
            final(self).model() == cs_write(old(self).model(), c),
            final(self).inv(),
    {
        match self {
            StreamCodec::Null(n) => n.write(c),
            StreamCodec::Psg(p) => p.write(c),
        }
    }

    pub fn passthrough(&mut self, c: u8)
        requires
            old(self).inv(),
        ensures
            final(self).model() == cs_passthrough(old(self).model(), c),
            final(self).inv(),
    {
        match self {
            StreamCodec::Null(n) => n.passthrough(c),
            StreamCodec::Psg(p) => p.passthrough(c),
        }
    }

    pub fn flush(&mut self)
        requires
            old(self).inv(),
        ensures
            final(self).model() == cs_flush(old(self).model()),
            final(self).inv(),
    {
        match self {
            StreamCodec::Null(n) => n.flush(),
            StreamCodec::Psg(p) => p.flush(),
        }
    }

    pub fn output_len(&self) -> (n: usize)
        requires
            self.inv(),
        ensures
            n == cs_out(self.model()).len(),
    {
        match self {
            StreamCodec::Null(c) => c.output_len(),
            StreamCodec::Psg(p) => p.output_len(),
        }
    }

    pub fn get_extra_data(&self, what: u32) -> (r: Option<Vec<u8>>)
        requires
            self.inv(),
        ensures
            match r {
                Some(v) => cs_extra(self.model(), what) == Some(v@),
                None => cs_extra(self.model(), what) is None,
            },
    {
        match self {
            StreamCodec::Null(c) => c.get_extra_data(what),
            StreamCodec::Psg(p) => p.get_extra_data(what),
        }
    }

    /// Hand the output buffer back once the run is over.
    pub fn into_output(self) -> (r: ByteStream)
        requires
            self.inv(),
        ensures
            r@ == cs_out(self.model()),
            r.wf(),
            r.spec_pos() == 0,
    {
        match self {
            StreamCodec::Null(c) => c.output,
            StreamCodec::Psg(p) => p.output,
        }
    }
}

/// The compression stage from position `pos` of the reduced stream onward:
/// returns the final codec state, the translated loop position, and the
/// position just past the end marker (where the verbatim trailing block
/// starts).
pub open spec fn encode_from(
    input: Seq<u8>,
    pos: int,
    s: CodecState,
    loop_in: int,
    new_loop: int,
) -> Result<(CodecState, int, int), VgmError>
    decreases input.len() - pos,
{
    if pos < 0 || pos >= input.len() {
        Err(VgmError::TruncatedStream)
    } else {
        let s0 = if pos == loop_in {
            cs_flush(s)
        } else {
            s
        };
        let nl0 = if pos == loop_in {
            cs_out(cs_flush(s)).len() as int
        } else {
            new_loop
        };
        let c = input[pos];
        if c == END_OF_SOUND_DATA {
            // end of stream: flush the in-flight batch first, then emit the
            // marker itself outside any batch
            Ok((cs_passthrough(cs_flush(s0), c), nl0, pos + 1))
        } else {
            let s1 = cs_write(s0, c);
            if c == GG_STEREO || c == PSG_WRITE || c == 0x30 {
            if pos + 2 > input.len() {
                Err(VgmError::TruncatedStream)
            } else {
                encode_from(
                    input,
                    pos + 2,
                    cs_write_seq(s1, input.subrange(pos + 1, pos + 2)),
                    loop_in,
                    nl0,
                )
            }
        } else if (YM2413_WRITE <= c && c <= YM2151_WRITE) || c == WAIT_LONG {
            if pos + 3 > input.len() {
                Err(VgmError::TruncatedStream)
            } else {
                encode_from(
                    input,
                    pos + 3,
                    cs_write_seq(s1, input.subrange(pos + 1, pos + 3)),
                    loop_in,
                    nl0,
                )
            }
        } else if c == DATA_BLOCK {
            if pos + 2 > input.len() {
                Err(VgmError::TruncatedStream)
            } else if input[pos + 1] != 0x66 {
                Err(VgmError::IllegalCommand)
            } else if pos + 7 > input.len() {
                Err(VgmError::TruncatedStream)
            } else {
                let size = le32_at(input, pos + 3) as int;
                if pos + 7 + size > input.len() {
                    Err(VgmError::TruncatedStream)
                } else {
                    encode_from(
                        input,
                        pos + 7 + size,
                        cs_write_seq(s1, input.subrange(pos + 1, pos + 7 + size)),
                        loop_in,
                        nl0,
                    )
                }
            }
        } else if c == SEEK_PCM {
            if pos + 5 > input.len() {
                Err(VgmError::TruncatedStream)
            } else {
                encode_from(
                    input,
                    pos + 5,
                    cs_write_seq(s1, input.subrange(pos + 1, pos + 5)),
                    loop_in,
                    nl0,
                )
            }
            } else {
                encode_from(input, pos + 1, s1, loop_in, nl0)
            }
        }
    }
}

/// Feed the next `n` bytes of the stream through the codec.
fn feed_n(codec: &mut StreamCodec, input_stream: &mut ByteStream, n: usize)
    requires
        old(codec).inv(),
        old(input_stream).wf(),
        old(input_stream).spec_pos() + n <= old(input_stream)@.len(),
    ensures
        final(codec).inv(),
        final(codec).model() == cs_write_seq(
            old(codec).model(),
            old(input_stream)@.subrange(
                old(input_stream).spec_pos(),
                old(input_stream).spec_pos() + n,
            ),
        ),
        final(input_stream)@ == old(input_stream)@,
        final(input_stream).spec_pos() == old(input_stream).spec_pos() + n,
        final(input_stream).wf(),
{
    let ghost input = input_stream@;
    let ghost end = input_stream.spec_pos() + n;
    let mut i: usize = 0;
    while i < n
        invariant
            codec.inv(),
            input_stream.wf(),
            input_stream@ == input,
            i <= n,
            end == input_stream.spec_pos() + (n - i),
            end <= input.len(),
            cs_write_seq(
                old(codec).model(),
                input.subrange(old(input_stream).spec_pos(), end),
            ) == cs_write_seq(codec.model(), input.subrange(input_stream.spec_pos(), end)),
        decreases n - i,
    {
        let ghost p = input_stream.spec_pos();
        let b = input_stream.read();
        codec.write(b);
        i = i + 1;
        proof {
            assert(input.subrange(p, end)[0] == b);
            assert(input.subrange(p, end).subrange(1, end - p) =~= input.subrange(p + 1, end));
        }
    }
}

/// Run the compression stage over the rest of the reduced stream. On
/// success, returns the translated loop position; the stream cursor is left
/// at the start of the verbatim trailing block.
pub fn run_encode(
    codec: &mut StreamCodec,
    input_stream: &mut ByteStream,
    loop_in: u64,
    new_loop_init: u64,
) -> (r: Result<u64, VgmError>)
    requires
        old(codec).inv(),
        old(input_stream).wf(),
    ensures
        ({
            let enc = encode_from(
                old(input_stream)@,
                old(input_stream).spec_pos(),
                old(codec).model(),
                loop_in as int,
                new_loop_init as int,
            );
            match r {
                Ok(nl) => {
                    &&& enc matches Ok(t) && final(codec).model() == t.0 && nl == t.1
                        && final(input_stream).spec_pos() == t.2
                    &&& final(codec).inv()
                    &&& final(input_stream)@ == old(input_stream)@
                    &&& final(input_stream).wf()
                },
                Err(e) => enc == Err::<(CodecState, int, int), VgmError>(e),
            }
        }),
{
    let ghost input = input_stream@;
    let ghost pos_init = input_stream.spec_pos();
    let ghost s_init = codec.model();
    let mut new_loop: u64 = new_loop_init;

    loop
        invariant
            codec.inv(),
            input_stream.wf(),
            input_stream@ == input,
            input == old(input_stream)@,
            pos_init == old(input_stream).spec_pos(),
            s_init == old(codec).model(),
            encode_from(input, pos_init, s_init, loop_in as int, new_loop_init as int)
                == encode_from(
                input,
                input_stream.spec_pos(),
                codec.model(),
                loop_in as int,
                new_loop as int,
            ),
        decreases input.len() - input_stream.spec_pos(),
    {
        let ghost pos0 = input_stream.spec_pos();
        let ghost sc0 = codec.model();
        let ghost nl_entry = new_loop;
        if input_stream.available() == 0 {
            proof {
                assert(encode_from(input, pos0, sc0, loop_in as int, nl_entry as int)
                    == Err::<(CodecState, int, int), VgmError>(VgmError::TruncatedStream));
            }
            return Err(VgmError::TruncatedStream);
        }
        if input_stream.get_pos() as u64 == loop_in {
            codec.flush();
            new_loop = codec.output_len() as u64;
        }
        let ghost sc1 = if pos0 == loop_in as int {
            cs_flush(sc0)
        } else {
            sc0
        };
        let c = input_stream.read();
        if c == END_OF_SOUND_DATA {
            // flush the in-flight batch, then the marker goes through
            // outside any batch
            codec.flush();
            codec.passthrough(c);
            proof {
                assert(encode_from(input, pos0, sc0, loop_in as int, nl_entry as int)
                    == Ok::<(CodecState, int, int), VgmError>(
                    (codec.model(), new_loop as int, input_stream.spec_pos()),
                ));
            }
            return Ok(new_loop);
        }
        codec.write(c);

        if c == GG_STEREO || c == PSG_WRITE || c == 0x30 {
            if input_stream.available() < 1 {
                return Err(VgmError::TruncatedStream);
            }
            feed_n(codec, input_stream, 1);
        } else if (YM2413_WRITE <= c && c <= YM2151_WRITE) || c == WAIT_LONG {
            if input_stream.available() < 2 {
                return Err(VgmError::TruncatedStream);
            }
            feed_n(codec, input_stream, 2);
        } else if c == DATA_BLOCK {
            if input_stream.available() == 0 {
                return Err(VgmError::TruncatedStream);
            }
            if input_stream.peek() != 0x66 {
                return Err(VgmError::IllegalCommand);
            }
            if input_stream.available() < 6 {
                return Err(VgmError::TruncatedStream);
            }
            let data_block_size = input_stream.peek_u32_at(2);
            if (input_stream.available() as u64) < 6 + (data_block_size as u64) {
                return Err(VgmError::TruncatedStream);
            }
            feed_n(codec, input_stream, 6 + data_block_size as usize);
        } else if c == SEEK_PCM {
            if input_stream.available() < 4 {
                return Err(VgmError::TruncatedStream);
            }
            feed_n(codec, input_stream, 4);
        } else {
        }
    }
}

/// Flushing never shrinks the codec's output.
pub proof fn lemma_cs_flush_grows(s: CodecState)
    ensures
        cs_out(cs_flush(s)).len() >= cs_out(s).len(),
{
}

/// One appended byte never shrinks the codec's output.
pub proof fn lemma_cs_write_grows(s: CodecState, c: u8)
    ensures
        cs_out(cs_write(s, c)).len() >= cs_out(s).len(),
{
}

/// A whole appended sequence never shrinks the codec's output.
pub proof fn lemma_cs_write_seq_grows(s: CodecState, bytes: Seq<u8>)
    ensures
        cs_out(cs_write_seq(s, bytes)).len() >= cs_out(s).len(),
    decreases bytes.len(),
{
    if bytes.len() == 0 {
    } else {
        lemma_cs_write_grows(s, bytes[0]);
        lemma_cs_write_seq_grows(cs_write(s, bytes[0]), bytes.subrange(1, bytes.len() as int));
    }
}

/// Over the whole stage the codec's output only grows, and the translated
/// loop position is either the one passed in or an output length recorded
/// between the starting and the final output length.
pub proof fn lemma_encode_grows(
    input: Seq<u8>,
    pos: int,
    s: CodecState,
    loop_in: int,
    new_loop: int,
)
    ensures
        encode_from(input, pos, s, loop_in, new_loop) matches Ok(t) ==> {
            &&& cs_out(t.0).len() >= cs_out(s).len()
            &&& (t.1 == new_loop || (cs_out(s).len() <= t.1 <= cs_out(t.0).len()))
        },
    decreases input.len() - pos,
{
    if pos < 0 || pos >= input.len() {
    } else {
        let s0 = if pos == loop_in {
            cs_flush(s)
        } else {
            s
        };
        let nl0 = if pos == loop_in {
            cs_out(cs_flush(s)).len() as int
        } else {
            new_loop
        };
        lemma_cs_flush_grows(s);
        let c = input[pos];
        let s1 = cs_write(s0, c);
        lemma_cs_write_grows(s0, c);
        if c == GG_STEREO || c == PSG_WRITE || c == 0x30 {
            if pos + 2 <= input.len() {
                lemma_cs_write_seq_grows(s1, input.subrange(pos + 1, pos + 2));
                lemma_encode_grows(
                    input,
                    pos + 2,
                    cs_write_seq(s1, input.subrange(pos + 1, pos + 2)),
                    loop_in,
                    nl0,
                );
            }
        } else if (YM2413_WRITE <= c && c <= YM2151_WRITE) || c == WAIT_LONG {
            if pos + 3 <= input.len() {
                lemma_cs_write_seq_grows(s1, input.subrange(pos + 1, pos + 3));
                lemma_encode_grows(
                    input,
                    pos + 3,
                    cs_write_seq(s1, input.subrange(pos + 1, pos + 3)),
                    loop_in,
                    nl0,
                );
            }
        } else if c == END_OF_SOUND_DATA {
            lemma_cs_flush_grows(s0);
        } else if c == DATA_BLOCK {
            if pos + 2 > input.len() {
            } else if input[pos + 1] != 0x66 {
            } else if pos + 7 > input.len() {
            } else {
                let size = le32_at(input, pos + 3) as int;
                if pos + 7 + size <= input.len() {
                    lemma_cs_write_seq_grows(s1, input.subrange(pos + 1, pos + 7 + size));
                    lemma_encode_grows(
                        input,
                        pos + 7 + size,
                        cs_write_seq(s1, input.subrange(pos + 1, pos + 7 + size)),
                        loop_in,
                        nl0,
                    );
                }
            }
        } else if c == SEEK_PCM {
            if pos + 5 <= input.len() {
                lemma_cs_write_seq_grows(s1, input.subrange(pos + 1, pos + 5));
                lemma_encode_grows(
                    input,
                    pos + 5,
                    cs_write_seq(s1, input.subrange(pos + 1, pos + 5)),
                    loop_in,
                    nl0,
                );
            }
        } else {
            lemma_encode_grows(input, pos + 1, s1, loop_in, nl0);
        }
    }
}

} // verus!
