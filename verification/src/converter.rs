//! The transcoding pipeline: redundancy elimination, the compression stage,
//! and the output assembly with its offset reconciliation.

use vstd::prelude::*;
use crate::bytestream::{ByteStream, le32_at, store_le32};
use crate::codec::Codec;
use crate::encode::{
    StreamCodec,
    CodecState,
    cs_out,
    cs_extra,
    encode_from,
    run_encode,
    lemma_encode_grows,
};
use crate::error::VgmError;
use crate::gd3::{gd3_chars, gd3_next, read_gd3_string};
use crate::nullcodec::NullCodec;
use crate::psgcodec::{PsgCodec, PsgModel, GET_LONG_WAIT_LUT};
use crate::reduce::{ReduceState, merge_forward, reduce_from, lemma_reduce_out_grows};
use crate::specification::{
    FileHeader,
    HEADER_RECORD_SIZE,
    spec_parse_header,
    UNDEFINED,
    YM2612_LO_WRITE,
    END_OF_SOUND_DATA,
    DATA_BLOCK,
    WAIT_1,
    YM2612_WRITE_LO_WAIT_0,
    YM2612_WRITE_LO_WAIT_15,
    SEEK_PCM,
    num_argument_bytes,
};

verus! {

/// Per-run configuration.
#[derive(Clone, Copy, Debug, PartialEq, Eq, Structural)]
pub struct ConverterFlags {
    /// Select the dictionary codec; otherwise the identity codec runs.
    pub psg_codec: bool,
    /// Treat the input file as compressed without looking at its magic bytes.
    pub assume_vgz: bool,
    /// Emit only the assembled command-stream image, without the player wrapper.
    pub raw_output: bool,
}

impl ConverterFlags {
    pub fn empty() -> (r: Self)
        ensures
            r == (ConverterFlags { psg_codec: false, assume_vgz: false, raw_output: false }),
    {
        ConverterFlags { psg_codec: false, assume_vgz: false, raw_output: false }
    }
}

pub struct Converter {
    /// Loop target, first as an input position, then (after the
    /// redundancy-elimination pass) as a reduced-stream position.
    pub loop_offset: u64,
    /// Whether the dictionary codec is in use for this run.
    pub codec_used: bool,
    pub song_title: Vec<u8>,
    pub game_title: Vec<u8>,
    pub artist: Vec<u8>,
}

impl Converter {
    pub fn new() -> (r: Self)
        ensures
            r.loop_offset == 0,
            !r.codec_used,
            r.song_title@ == Seq::<u8>::empty(),
            r.game_title@ == Seq::<u8>::empty(),
            r.artist@ == Seq::<u8>::empty(),
    {
        Converter {
            loop_offset: 0,
            codec_used: false,
            song_title: Vec::new(),
            game_title: Vec::new(),
            artist: Vec::new(),
        }
    }

    /// The initial state of the redundancy-elimination pass for this run.
    pub open spec fn reduce_init(
        self,
        input: Seq<u8>,
        starting_offset: int,
        header: FileHeader,
    ) -> ReduceState {
        ReduceState {
            out: input.subrange(0, starting_offset),
            mode: 0,
            loop_in: header.loop_offset + 0x1C,
            loop_out: self.loop_offset as int,
            keep_seek: !self.codec_used,
            floor: starting_offset,
        }
    }

    /// Run the redundancy-elimination pass over the raw command stream,
    /// recording the translated loop position in `self.loop_offset`.
    #[verifier::loop_isolation(false)]
    #[verifier::rlimit(100)]
    #[verifier::spinoff_prover]
    pub fn preprocess(
        &mut self,
        input_stream: &mut ByteStream,
        starting_offset: usize,
        header: &FileHeader,
    ) -> (r: Result<ByteStream, VgmError>)
        requires
            old(input_stream).wf(),
            old(input_stream).spec_pos() == 0,
            starting_offset <= old(input_stream)@.len(),
        ensures
            ({
                let red = reduce_from(
                    old(input_stream)@,
                    starting_offset as int,
                    old(self).reduce_init(old(input_stream)@, starting_offset as int, *header),
                );
                match r {
                    Ok(out) => {
                        &&& red matches Ok(m) && out@ == m.out && final(self).loop_offset
                            == m.loop_out
                        &&& out.wf()
                        &&& out.spec_pos() == 0
                    },
                    Err(e) => red == Err::<ReduceState, VgmError>(e),
                }
            }),
            final(self).codec_used == old(self).codec_used,
            final(self).song_title == old(self).song_title,
            final(self).game_title == old(self).game_title,
            final(self).artist == old(self).artist,
    {
        let ghost input = input_stream@;
        let ghost init = old(self).reduce_init(input, starting_offset as int, *header);
        let total = input_stream.len();
        let mut out = ByteStream::new(input_stream.read_n(starting_offset));
        let mut ym_ch3_mode: u8 = 0;
        let loop_in: u64 = (header.loop_offset as u64) + 0x1C;
        let mut loop_out: u64 = self.loop_offset;
        let keep_seek = !self.codec_used;
        proof {
            assert(init == (ReduceState {
                out: out@,
                mode: ym_ch3_mode,
                loop_in: loop_in as int,
                loop_out: loop_out as int,
                keep_seek: keep_seek,
                floor: starting_offset as int,
            }));
        }

        loop
            invariant
                input_stream.wf(),
                input_stream@ == input,
                out.wf(),
                out.spec_pos() == 0,
                self.codec_used == old(self).codec_used,
                self.song_title == old(self).song_title,
                self.game_title == old(self).game_title,
                self.artist == old(self).artist,
                reduce_from(input, starting_offset as int, init) == reduce_from(
                    input,
                    input_stream.spec_pos(),
                    ReduceState {
                        out: out@,
                        mode: ym_ch3_mode,
                        loop_in: loop_in as int,
                        loop_out: loop_out as int,
                        keep_seek: keep_seek,
                        floor: starting_offset as int,
                    },
                ),
            decreases input.len() - input_stream.spec_pos(),
        {
            let ghost pos0 = input_stream.spec_pos();
            let ghost st0 = ReduceState {
                out: out@,
                mode: ym_ch3_mode,
                loop_in: loop_in as int,
                loop_out: loop_out as int,
                keep_seek: keep_seek,
                floor: starting_offset as int,
            };
            if input_stream.available() == 0 {
                return Err(VgmError::TruncatedStream);
            }
            if input_stream.get_pos() as u64 == loop_in {
                loop_out = out.len() as u64;
            }
            let ghost st1 = if pos0 == st0.loop_in {
                ReduceState { loop_out: st0.out.len() as int, ..st0 }
            } else {
                st0
            };
            let c = input_stream.read();

            if c == YM2612_LO_WRITE {
                if input_stream.available() < 2 {
                    return Err(VgmError::TruncatedStream);
                }
                let a1 = input_stream.read();
                let a2 = input_stream.read();
                if a1 == 0x27 {
                    if (a2 >> 6) != ym_ch3_mode {
                        ym_ch3_mode = a2 >> 6;
                        out.write(c);
                        out.write(a1);
                        out.write(a2);
                        proof {
                            assert(out@ =~= st1.out + seq![c, a1, a2]);
                        }
                    }
                } else if a1 == 0x25 || a1 == 0x26 {
                    // writes to the two timer sub-registers are dropped whole
                } else {
                    out.write(c);
                    out.write(a1);
                    out.write(a2);
                    proof {
                        assert(out@ =~= st1.out + seq![c, a1, a2]);
                    }
                }
            } else if c == END_OF_SOUND_DATA {
                out.write(c);
                let rest = input_stream.read_available();
                out.write_n(rest.as_slice());
                proof {
                    assert(out@ =~= st1.out.push(c) + input.subrange(
                        pos0 + 1,
                        input.len() as int,
                    ));
                    assert(reduce_from(input, pos0, st0) matches Ok(m) && m == (ReduceState {
                        out: out@,
                        mode: ym_ch3_mode,
                        loop_in: loop_in as int,
                        loop_out: loop_out as int,
                        keep_seek: keep_seek,
                        floor: starting_offset as int,
                    }));
                }
                self.loop_offset = loop_out;
                return Ok(out);
            } else if c == DATA_BLOCK {
                if input_stream.available() == 0 {
                    return Err(VgmError::TruncatedStream);
                }
                if input_stream.peek() != 0x66 {
                    return Err(VgmError::IllegalCommand);
                }
                if input_stream.available() < 6 {
                    return Err(VgmError::TruncatedStream);
                }
                let data_block_size = input_stream.peek_u32_at(2);
                if (input_stream.available() as u64) < 6 + (data_block_size as u64) {
                    return Err(VgmError::TruncatedStream);
                }
                out.write(c);
                let block = input_stream.read_n(6 + data_block_size as usize);
                out.write_n(block.as_slice());
                proof {
                    assert(out@ =~= st1.out + input.subrange(
                        pos0,
                        pos0 + 7 + (data_block_size as int),
                    ));
                }
            } else if YM2612_WRITE_LO_WAIT_0 <= c && c <= YM2612_WRITE_LO_WAIT_15 {
                let mut wait: u8 = c & 0x0F;
                proof {
                    assert((c & 0x0F) < 0x10) by (bit_vector);
                }
                if input_stream.available() == 0 {
                    return Err(VgmError::TruncatedStream);
                }
                if input_stream.peek() & 0xF0 == WAIT_1 {
                    // Merge as many adjacent short-wait commands as possible
                    let ghost p0 = input_stream.spec_pos();
                    let ghost w0 = wait;
                    let mut merging = true;
                    while merging
                        invariant
                            input_stream.wf(),
                            input_stream@ == input,
                            p0 <= input_stream.spec_pos(),
                            wait < 0x10,
                            merging ==> merge_forward(input, p0, w0) == merge_forward(
                                input,
                                input_stream.spec_pos(),
                                wait,
                            ),
                            !merging ==> merge_forward(input, p0, w0) == Ok::<
                                (u8, int),
                                VgmError,
                            >((wait, input_stream.spec_pos())),
                        decreases input.len() - input_stream.spec_pos() + (if merging {
                            1int
                        } else {
                            0int
                        }),
                    {
                        if input_stream.available() == 0 {
                            return Err(VgmError::TruncatedStream);
                        }
                        let nb = input_stream.peek();
                        if nb & 0xF0 != WAIT_1 {
                            merging = false;
                        } else {
                            proof {
                                assert((nb & 0x0F) < 0x10) by (bit_vector);
                            }
                            if wait + (nb & 0x0F) + 1 < 0x10 {
                                let b = input_stream.read();
                                wait = wait + (b & 0x0F) + 1;
                            } else {
                                merging = false;
                            }
                        }
                    }
                    out.write(0x80 | wait);
                } else {
                    let mut backward_merged = false;
                    let out_len = out.len();
                    // never merge into the verbatim header prefix
                    if out_len > starting_offset {
                        let last: u8 = match out.last() {
                            Some(b) => *b,
                            None => 0,
                        };
                        if last & 0xF0 == WAIT_1 {
                            proof {
                                assert((last & 0x0F) < 0x10) by (bit_vector);
                            }
                            if wait + (last & 0x0F) + 1 < 0x10 {
                                wait = wait + (last & 0x0F) + 1;
                                // backward merge is an in-place edit of the
                                // last emitted byte, not an append
                                out.replace_at(out_len - 1, 0x80 | wait);
                                backward_merged = true;
                            }
                        }
                    }
                    if !backward_merged {
                        out.write(0x80 | wait);
                    }
                }
            } else if c == SEEK_PCM {
                if input_stream.available() < 4 {
                    return Err(VgmError::TruncatedStream);
                }
                let pcm_offset = input_stream.peek_u32_at(0);
                if pcm_offset != 0 && keep_seek {
                    out.write(c);
                    let args = input_stream.read_n(4);
                    out.write_n(args.as_slice());
                    proof {
                        assert(out@ =~= st1.out + input.subrange(pos0, pos0 + 5));
                    }
                } else {
                    input_stream.skip(4);
                }
            } else {
                let n = num_argument_bytes(c);
                if (input_stream.available() as u64) < n as u64 {
                    return Err(VgmError::TruncatedStream);
                }
                out.write(c);
                let args = input_stream.read_n(n as usize);
                out.write_n(args.as_slice());
                proof {
                    assert(out@ =~= st1.out + input.subrange(pos0, pos0 + 1 + (n as int)));
                }
            }
        }
    }
}


/// A sequence of `n` zero bytes.
pub open spec fn zero_seq(n: int) -> Seq<u8> {
    Seq::new(n as nat, |i: int| 0u8)
}

/// A fixed-width tag field: the bytes truncated or zero-padded to `target`.
pub open spec fn id666_spec(bytes: Seq<u8>, target: int) -> Seq<u8> {
    if bytes.len() >= target {
        bytes.subrange(0, target)
    } else {
        bytes + zero_seq(target - bytes.len())
    }
}

/// The identifying magic string of the output sound image.
pub open spec fn spc_magic_spec() -> Seq<u8> {
    seq![
        0x53u8, 0x4E, 0x45, 0x53, 0x2D, 0x53, 0x50, 0x43, 0x37, 0x30, 0x30, 0x20, 0x53, 0x6F,
        0x75, 0x6E, 0x64, 0x20, 0x46, 0x69, 0x6C, 0x65, 0x20, 0x44, 0x61, 0x74, 0x61, 0x20, 0x76,
        0x30, 0x2E, 0x33, 0x30,
    ]
}

/// The placeholder dumper name written into the tag block.
pub open spec fn unknown_tag_spec() -> Seq<u8> {
    seq![0x55u8, 0x6E, 0x6B, 0x6E, 0x6F, 0x77, 0x6E]
}

/// The comment written into the tag block.
pub open spec fn created_tag_spec() -> Seq<u8> {
    seq![
        0x43u8, 0x72, 0x65, 0x61, 0x74, 0x65, 0x64, 0x20, 0x77, 0x69, 0x74, 0x68, 0x20, 0x56,
        0x47, 0x4D, 0x32, 0x53, 0x50, 0x43,
    ]
}

/// The fixed dump date written into the tag block.
pub open spec fn date_tag_spec() -> Seq<u8> {
    seq![0x30u8, 0x31, 0x2F, 0x30, 0x31, 0x2F, 0x31, 0x39, 0x39, 0x30]
}

/// The control-register block: echo-buffer writes disabled, all else zero.
pub open spec fn dsp_regs_spec() -> Seq<u8> {
    Seq::new(128, |i: int| if i == 0x6C { 0x20u8 } else { 0u8 })
}

/// The full player wrapper around the assembled image: magic, register
/// block, tag block, embedded player binary, the image itself, zero padding
/// to the fixed memory window, and the control-register blocks.
pub open spec fn spc_wrap_spec(
    image: Seq<u8>,
    player: Seq<u8>,
    song: Seq<u8>,
    game: Seq<u8>,
    artist: Seq<u8>,
) -> Seq<u8> {
    let player2 = if player.len() > 0xF0 {
        player.update(0xF0, 0x0Au8)
    } else {
        player
    };
    spc_magic_spec() + seq![26u8, 26, 26, 30] + seq![0x00u8, 0x03, 0, 0, 0, 0, 0, 0, 0]
        + id666_spec(song, 32) + id666_spec(game, 32) + id666_spec(unknown_tag_spec(), 16)
        + id666_spec(created_tag_spec(), 32) + id666_spec(date_tag_spec(), 11) + zero_seq(8)
        + id666_spec(artist, 32) + zero_seq(2) + zero_seq(45) + player2 + image + zero_seq(
        0x10000 - player.len() - image.len(),
    ) + dsp_regs_spec() + zero_seq(128)
}

/// Where the command data starts: the declared data offset when the format
/// version carries one, floored at the fixed minimum header size.
pub open spec fn spec_data_offset(h: FileHeader) -> int {
    if h.version >= 0x150 {
        if h.vgm_data_offset >= 0x40 {
            h.vgm_data_offset as int
        } else {
            0x40
        }
    } else {
        0x40
    }
}

/// The codec state a run starts from: the selected variant, with the output
/// buffer holding the (marked) header bytes.
pub open spec fn initial_codec_state(psg: bool, hdr: Seq<u8>) -> CodecState {
    if psg {
        CodecState::Psg(
            PsgModel {
                output: hdr,
                pending: Seq::empty(),
                table: Seq::empty(),
                current: UNDEFINED,
                remaining: 0,
                duration: 0,
                flags: 0,
                num_flags: 0,
            },
        )
    } else {
        CodecState::Null(hdr)
    }
}

/// Everything a successful run hands back.
pub struct ConvertModel {
    /// The full output file bytes.
    pub image: Seq<u8>,
    pub song: Seq<u8>,
    pub game: Seq<u8>,
    pub artist: Seq<u8>,
    /// The translated loop position recorded by the passes.
    pub loop_out: int,
}

/// The back half of the pipeline, once the codec's output (with the
/// verbatim trailing block appended) is in hand: the capacity check, the
/// end-of-data patch, and the rest of the reconciliation and assembly.
pub open spec fn assemble_spec(
    input_len: int,
    h: FileHeader,
    doff: int,
    body_len: int,
    out1: Seq<u8>,
    extra: Seq<u8>,
    red_loop: int,
    new_loop: int,
    raw: bool,
    player: Seq<u8>,
) -> Result<ConvertModel, VgmError> {
    let peff_len: int = if raw {
        0
    } else {
        player.len() as int
    };
    if peff_len > 0xFFC0 {
        Err(VgmError::DataTooLarge { max_size: 0 })
    } else if out1.len() + extra.len() > 0xFFC0 - peff_len {
        Err(VgmError::DataTooLarge { max_size: (0xFFC0 - peff_len) as u64 })
    } else {
        let out2 = store_le32(out1, 4, (body_len + extra.len() - 4) as u32);
        finish_spec(input_len, h, doff, out2, extra, red_loop, new_loop, raw, player)
    }
}

/// Offset reconciliation and final assembly, after both passes have run:
/// patch the trailing-metadata offset and extract the tag strings, patch the
/// loop offset, splice the dictionary block in after the header, and wrap.
pub open spec fn finish_spec(
    input_len: int,
    h: FileHeader,
    doff: int,
    out2: Seq<u8>,
    extra: Seq<u8>,
    red_loop: int,
    new_loop: int,
    raw: bool,
    player: Seq<u8>,
) -> Result<ConvertModel, VgmError> {
    if h.gd3_offset != 0 {
        if h.gd3_offset + out2.len() + extra.len() < input_len {
            Err(VgmError::BadOffset)
        } else {
            let g = h.gd3_offset + out2.len() + extra.len() - input_len;
            if g > 0xFFFFFFFF {
                Err(VgmError::BadOffset)
            } else {
                let out3 = store_le32(out2, 0x14, g as u32);
                if g + 0x20 < extra.len() {
                    Err(VgmError::BadOffset)
                } else {
                    let sp = g + 0x20 - extra.len();
                    if sp > out3.len() {
                        Err(VgmError::BadOffset)
                    } else {
                        let song = gd3_chars(out3, sp, 32);
                        let e1 = gd3_next(out3, sp);
                        let e2 = gd3_next(out3, e1);
                        let game = gd3_chars(out3, e2, 32);
                        let e3 = gd3_next(out3, e2);
                        let e4 = gd3_next(out3, e3);
                        let e5 = gd3_next(out3, e4);
                        let e6 = gd3_next(out3, e5);
                        let artist = gd3_chars(out3, e6, 32);
                        patch_loop_and_wrap(
                            out3,
                            extra,
                            doff,
                            red_loop,
                            new_loop,
                            raw,
                            player,
                            song,
                            game,
                            artist,
                        )
                    }
                }
            }
        }
    } else {
        patch_loop_and_wrap(
            out2,
            extra,
            doff,
            red_loop,
            new_loop,
            raw,
            player,
            Seq::empty(),
            Seq::empty(),
            Seq::empty(),
        )
    }
}

/// The last reconciliation step: rewrite the loop offset (only when the
/// original one was nonzero relative to the anchor), splice the side block
/// in after the header, and wrap unless raw output was asked for.
pub open spec fn patch_loop_and_wrap(
    outp: Seq<u8>,
    extra: Seq<u8>,
    doff: int,
    red_loop: int,
    new_loop: int,
    raw: bool,
    player: Seq<u8>,
    song: Seq<u8>,
    game: Seq<u8>,
    artist: Seq<u8>,
) -> Result<ConvertModel, VgmError> {
    let nl2 = new_loop + extra.len();
    if red_loop > 0x1C && nl2 - 0x1C > 0xFFFFFFFF {
        Err(VgmError::BadOffset)
    } else {
        let outf = if red_loop > 0x1C {
            store_le32(outp, 0x1C, (nl2 - 0x1C) as u32)
        } else {
            outp
        };
        let image = outf.subrange(0, doff) + extra + outf.subrange(doff, outf.len() as int);
        let full = if raw {
            image
        } else {
            spc_wrap_spec(image, player, song, game, artist)
        };
        Ok(ConvertModel { image: full, song, game, artist, loop_out: red_loop })
    }
}

/// The whole pipeline on the raw input bytes: header parse, redundancy
/// elimination, compression, and assembly. A function of the input bytes and
/// the configuration alone.
pub open spec fn convert_spec(input: Seq<u8>, psg: bool, raw: bool, player: Seq<u8>) -> Result<
    ConvertModel,
    VgmError,
> {
    if input.len() < HEADER_RECORD_SIZE {
        Err(VgmError::InputTooSmall)
    } else {
        let h = spec_parse_header(input);
        let doff = spec_data_offset(h);
        if doff > input.len() {
            Err(VgmError::TruncatedStream)
        } else {
            let init = ReduceState {
                out: input.subrange(0, doff),
                mode: 0,
                loop_in: h.loop_offset + 0x1C,
                loop_out: h.loop_offset + 0x1C,
                keep_seek: !psg,
                floor: doff,
            };
            match reduce_from(input, doff, init) {
                Err(e) => Err(e),
                Ok(red) => {
                    let reduced = red.out;
                    let hdr = reduced.subrange(0, doff).update(8, 0x52u8);
                    match encode_from(
                        reduced,
                        doff,
                        initial_codec_state(psg, hdr),
                        red.loop_out,
                        red.loop_out,
                    ) {
                        Err(e) => Err(e),
                        Ok(enc) => {
                            let body = cs_out(enc.0);
                            let extra = match cs_extra(enc.0, GET_LONG_WAIT_LUT) {
                                Some(b) => b,
                                None => Seq::empty(),
                            };
                            let out1 = body + reduced.subrange(enc.2, reduced.len() as int);
                            assemble_spec(
                                input.len() as int,
                                h,
                                doff,
                                body.len() as int,
                                out1,
                                extra,
                                red.loop_out,
                                enc.1,
                                raw,
                                player,
                            )
                        },
                    }
                },
            }
        }
    }
}


/// Append `n` zero bytes to the stream.
fn push_zeros(bs: &mut ByteStream, n: usize)
    requires
        old(bs).wf(),
    ensures
        final(bs)@ == old(bs)@ + zero_seq(n as int),
        final(bs).spec_pos() == old(bs).spec_pos(),
        final(bs).wf(),
{
    let mut i: usize = 0;
    while i < n
        invariant
            i <= n,
            bs.wf(),
            bs@ == old(bs)@ + zero_seq(i as int),
            bs.spec_pos() == old(bs).spec_pos(),
        decreases n - i,
    {
        bs.write(0);
        i = i + 1;
        proof {
            assert(bs@ =~= old(bs)@ + zero_seq(i as int));
        }
    }
    proof {
        assert(bs@ =~= old(bs)@ + zero_seq(n as int));
    }
}

/// The identifying magic string, as bytes.
fn spc_magic_vec() -> (r: Vec<u8>)
    ensures
        r@ == spc_magic_spec(),
{
    let mut v: Vec<u8> = Vec::new();
    v.push(0x53);
    v.push(0x4E);
    v.push(0x45);
    v.push(0x53);
    v.push(0x2D);
    v.push(0x53);
    v.push(0x50);
    v.push(0x43);
    v.push(0x37);
    v.push(0x30);
    v.push(0x30);
    v.push(0x20);
    v.push(0x53);
    v.push(0x6F);
    v.push(0x75);
    v.push(0x6E);
    v.push(0x64);
    v.push(0x20);
    v.push(0x46);
    v.push(0x69);
    v.push(0x6C);
    v.push(0x65);
    v.push(0x20);
    v.push(0x44);
    v.push(0x61);
    v.push(0x74);
    v.push(0x61);
    v.push(0x20);
    v.push(0x76);
    v.push(0x30);
    v.push(0x2E);
    v.push(0x33);
    v.push(0x30);
    proof {
        assert(v@ =~= spc_magic_spec());
    }
    v
}

/// The placeholder dumper name, as bytes.
fn unknown_tag_vec() -> (r: Vec<u8>)
    ensures
        r@ == unknown_tag_spec(),
{
    let mut v: Vec<u8> = Vec::new();
    v.push(0x55);
    v.push(0x6E);
    v.push(0x6B);
    v.push(0x6E);
    v.push(0x6F);
    v.push(0x77);
    v.push(0x6E);
    proof {
        assert(v@ =~= unknown_tag_spec());
    }
    v
}

/// The comment tag, as bytes.
fn created_tag_vec() -> (r: Vec<u8>)
    ensures
        r@ == created_tag_spec(),
{
    let mut v: Vec<u8> = Vec::new();
    v.push(0x43);
    v.push(0x72);
    v.push(0x65);
    v.push(0x61);
    v.push(0x74);
    v.push(0x65);
    v.push(0x64);
    v.push(0x20);
    v.push(0x77);
    v.push(0x69);
    v.push(0x74);
    v.push(0x68);
    v.push(0x20);
    v.push(0x56);
    v.push(0x47);
    v.push(0x4D);
    v.push(0x32);
    v.push(0x53);
    v.push(0x50);
    v.push(0x43);
    proof {
        assert(v@ =~= created_tag_spec());
    }
    v
}

/// The fixed dump date, as bytes.
fn date_tag_vec() -> (r: Vec<u8>)
    ensures
        r@ == date_tag_spec(),
{
    let mut v: Vec<u8> = Vec::new();
    v.push(0x30);
    v.push(0x31);
    v.push(0x2F);
    v.push(0x30);
    v.push(0x31);
    v.push(0x2F);
    v.push(0x31);
    v.push(0x39);
    v.push(0x39);
    v.push(0x30);
    proof {
        assert(v@ =~= date_tag_spec());
    }
    v
}

/// The control-register block, as bytes.
fn dsp_regs_vec() -> (r: Vec<u8>)
    ensures
        r@ == dsp_regs_spec(),
{
    let mut v: Vec<u8> = Vec::new();
    let mut i: usize = 0;
    while i < 128
        invariant
            i <= 128,
            v@.len() == i,
            forall|j: int| 0 <= j < i ==> v@[j] == dsp_regs_spec()[j],
        decreases 128 - i,
    {
        if i == 0x6C {
            v.push(0x20);
        } else {
            v.push(0);
        }
        i = i + 1;
    }
    proof {
        assert(v@ =~= dsp_regs_spec());
    }
    v
}

impl Converter {
    /// Return a vector of length `target_len` consisting of the data from
    /// `bytes`, plus as many padding zero-bytes as necessary.
    fn as_id666_buffer(bytes: &[u8], target_len: usize) -> (r: Vec<u8>)
        ensures
            r@ == id666_spec(bytes@, target_len as int),
    {
        let mut result: Vec<u8> = Vec::new();
        let bytes_used: usize = if bytes.len() < target_len {
            bytes.len()
        } else {
            target_len
        };
        let mut i: usize = 0;
        while i < bytes_used
            invariant
                i <= bytes_used,
                bytes_used <= bytes@.len(),
                result@ == bytes@.subrange(0, i as int),
            decreases bytes_used - i,
        {
            let b = bytes[i];
            result.push(b);
            i = i + 1;
            proof {
                assert(result@ =~= bytes@.subrange(0, i as int));
            }
        }
        let mut k: usize = bytes_used;
        while k < target_len
            invariant
                bytes_used <= k <= target_len,
                bytes_used <= bytes@.len(),
                result@ == bytes@.subrange(0, bytes_used as int) + zero_seq(k - bytes_used),
            decreases target_len - k,
        {
            result.push(0);
            k = k + 1;
            proof {
                assert(result@ =~= bytes@.subrange(0, bytes_used as int) + zero_seq(
                    k - bytes_used,
                ));
            }
        }
        proof {
            assert(result@ =~= id666_spec(bytes@, target_len as int));
        }
        result
    }
}


impl Converter {
    /// Run the whole pipeline on the raw input bytes (already unwrapped from
    /// any compressed container): parse the header, run the
    /// redundancy-elimination pass and the selected codec, reconcile every
    /// offset-bearing header field, and assemble the output file. The result
    /// is a function of the input bytes and the configuration alone.
    #[verifier::loop_isolation(false)]
    #[verifier::rlimit(100)]
    #[verifier::spinoff_prover]
    pub fn convert(
        &mut self,
        input_data: Vec<u8>,
        player: Vec<u8>,
        flags: ConverterFlags,
    ) -> (r: Result<Vec<u8>, VgmError>)
        ensures
            ({
                let cs = convert_spec(input_data@, flags.psg_codec, flags.raw_output, player@);
                match r {
                    Ok(v) => {
                        &&& cs matches Ok(cm) && v@ == cm.image && final(self).song_title@
                            == cm.song && final(self).game_title@ == cm.game
                            && final(self).artist@ == cm.artist
                            && final(self).loop_offset == cm.loop_out
                        &&& final(self).codec_used == flags.psg_codec
                    },
                    Err(e) => cs == Err::<ConvertModel, VgmError>(e),
                }
            }),
    {
        let ghost input = input_data@;
        self.codec_used = flags.psg_codec;
        let header = match FileHeader::parse(&input_data) {
            Some(h) => h,
            None => { return Err(VgmError::InputTooSmall) },
        };
        let data_offset_u32: u32 = if header.version >= 0x150 {
            if header.vgm_data_offset >= 0x40 {
                header.vgm_data_offset
            } else {
                0x40
            }
        } else {
            0x40
        };
        if (data_offset_u32 as u64) > (input_data.len() as u64) {
            return Err(VgmError::TruncatedStream);
        }
        let data_offset: usize = data_offset_u32 as usize;
        let mut input_stream = ByteStream::new(input_data);
        let input_size = input_stream.len();
        self.loop_offset = header.loop_offset as u64 + 0x1C;

        let ghost init = ReduceState {
            out: input.subrange(0, data_offset as int),
            mode: 0,
            loop_in: header.loop_offset + 0x1C,
            loop_out: header.loop_offset + 0x1C,
            keep_seek: !flags.psg_codec,
            floor: data_offset as int,
        };
        let mut reduced_stream = match self.preprocess(&mut input_stream, data_offset, &header) {
            Ok(s) => s,
            Err(e) => { return Err(e) },
        };
        let ghost red = reduce_from(input, data_offset as int, init)->Ok_0;
        proof {
            lemma_reduce_out_grows(input, data_offset as int, init);
        }

        let mut output_stream = ByteStream::new(reduced_stream.read_n(data_offset));
        output_stream.replace_at(8, 0x52);  // mark the stream as compressed
        let ghost hdr = red.out.subrange(0, data_offset as int).update(8, 0x52u8);
        let ghost cs0 = initial_codec_state(flags.psg_codec, hdr);

        let mut codec = if flags.psg_codec {
            StreamCodec::Psg(<PsgCodec as Codec>::new(output_stream))
        } else {
            StreamCodec::Null(<NullCodec as Codec>::new(output_stream))
        };
        proof {
            assert(codec.model() == cs0);
        }
        let new_loop: u64 = match run_encode(
            &mut codec,
            &mut reduced_stream,
            self.loop_offset,
            self.loop_offset,
        ) {
            Ok(nl) => nl,
            Err(e) => { return Err(e) },
        };
        let ghost enc = encode_from(red.out, data_offset as int, cs0, red.loop_out, red.loop_out)->Ok_0;
        proof {
            lemma_encode_grows(red.out, data_offset as int, cs0, red.loop_out, red.loop_out);
        }

        let extra: Vec<u8> = match codec.get_extra_data(GET_LONG_WAIT_LUT) {
            Some(v) => v,
            None => Vec::new(),
        };
        let body_len = codec.output_len();
        let mut output_stream = codec.into_output();
        let trailing = reduced_stream.read_available();
        output_stream.write_n(trailing.as_slice());
        let ghost out1 = cs_out(enc.0) + red.out.subrange(enc.2, red.out.len() as int);
        proof {
            assert(output_stream@ =~= out1);
        }

        proof {
            assert(cs_out(cs0).len() == data_offset as int);
        }
        self.assemble(
            output_stream,
            body_len,
            extra,
            input_size,
            &header,
            data_offset,
            new_loop,
            flags,
            player,
        )
    }

    /// The back half of the pipeline: capacity check, offset reconciliation,
    /// trailing-metadata string extraction, splice, and wrap.
    #[verifier::loop_isolation(false)]
    #[verifier::rlimit(100)]
    #[verifier::spinoff_prover]
    fn assemble(
        &mut self,
        output_stream: ByteStream,
        body_len: usize,
        extra: Vec<u8>,
        input_size: usize,
        header: &FileHeader,
        data_offset: usize,
        new_loop: u64,
        flags: ConverterFlags,
        player: Vec<u8>,
    ) -> (r: Result<Vec<u8>, VgmError>)
        requires
            output_stream.wf(),
            output_stream.spec_pos() == 0,
            0x40 <= data_offset <= body_len,
            body_len <= output_stream@.len(),
            new_loop == old(self).loop_offset || data_offset <= new_loop <= body_len,
        ensures
            ({
                let asr = assemble_spec(
                    input_size as int,
                    *header,
                    data_offset as int,
                    body_len as int,
                    output_stream@,
                    extra@,
                    old(self).loop_offset as int,
                    new_loop as int,
                    flags.raw_output,
                    player@,
                );
                match r {
                    Ok(v) => {
                        &&& asr matches Ok(cm) && v@ == cm.image && final(self).song_title@
                            == cm.song && final(self).game_title@ == cm.game
                            && final(self).artist@ == cm.artist
                    },
                    Err(e) => asr == Err::<ConvertModel, VgmError>(e),
                }
            }),
            final(self).codec_used == old(self).codec_used,
            final(self).loop_offset == old(self).loop_offset,
    {
        let ghost out1 = output_stream@;
        let mut output_stream = output_stream;
        // capacity: the image must fit the fixed target memory window
        let player_len_eff: u64 = if flags.raw_output {
            0
        } else {
            player.len() as u64
        };
        if player_len_eff > 0xFFC0 {
            return Err(VgmError::DataTooLarge { max_size: 0 });
        }
        let max_size: u64 = 0xFFC0 - player_len_eff;
        let ol = output_stream.len();
        let el = extra.len();
        if ol > 0xFFC0 || el > 0xFFC0 || ol + el > max_size as usize {
            return Err(VgmError::DataTooLarge { max_size });
        }

        // end-of-data offset: header + dictionary + compressed body - 4
        let eof_offset: u64 = body_len as u64 + el as u64 - 4;
        output_stream.replace_u32_at(4, eof_offset as u32);
        let ghost out2 = store_le32(out1, 4, (body_len + el - 4) as u32);
        proof {
            assert(output_stream@ == out2);
        }

        // trailing-metadata offset, decreased by the net length delta, and
        // the three tag strings
        if header.gd3_offset != 0 {
            let total_after: u64 = output_stream.len() as u64 + el as u64;
            let g64: u64 = header.gd3_offset as u64 + total_after;
            if g64 < input_size as u64 {
                return Err(VgmError::BadOffset);
            }
            let g: u64 = g64 - input_size as u64;
            if g > 0xFFFFFFFF {
                return Err(VgmError::BadOffset);
            }
            output_stream.replace_u32_at(0x14, g as u32);
            let spv: u64 = g + 0x20;
            if spv < el as u64 {
                return Err(VgmError::BadOffset);
            }
            let sp: u64 = spv - el as u64;
            if sp > output_stream.len() as u64 {
                return Err(VgmError::BadOffset);
            }
            output_stream.skip(sp as usize);
            let mut song: Vec<u8> = Vec::new();
            let mut dummy: Vec<u8> = Vec::new();
            let mut game: Vec<u8> = Vec::new();
            let mut artist: Vec<u8> = Vec::new();
            read_gd3_string(&mut output_stream, &mut song);
            read_gd3_string(&mut output_stream, &mut dummy);  // skip japanese title
            read_gd3_string(&mut output_stream, &mut game);
            read_gd3_string(&mut output_stream, &mut dummy);  // skip japanese game title
            read_gd3_string(&mut output_stream, &mut dummy);  // skip system name
            read_gd3_string(&mut output_stream, &mut dummy);  // skip japanese system name
            read_gd3_string(&mut output_stream, &mut artist);
            output_stream.reset();
            self.song_title = song;
            self.game_title = game;
            self.artist = artist;
        } else {
            self.song_title = Vec::new();
            self.game_title = Vec::new();
            self.artist = Vec::new();
        }

        // loop offset: translated position + dictionary block length - anchor
        if self.loop_offset > 0x1C {
            if new_loop > 0xFFFF_FFFF_FFFF {
                // the reconciled value cannot fit the field
                return Err(VgmError::BadOffset);
            }
            let nl2: u64 = new_loop + el as u64;
            if nl2 - 0x1C > 0xFFFFFFFF {
                return Err(VgmError::BadOffset);
            }
            output_stream.replace_u32_at(0x1C, (nl2 - 0x1C) as u32);
        }

        // splice the side block in right after the header
        output_stream.reset();
        let head = output_stream.read_n(data_offset);
        let rest = output_stream.read_available();
        let mut image_bs = ByteStream::new(head);
        image_bs.write_n(extra.as_slice());
        image_bs.write_n(rest.as_slice());
        let image = image_bs.into_vec();

        if flags.raw_output {
            return Ok(image);
        }
        let full = Self::build_wrapped(
            image,
            player,
            &self.song_title,
            &self.game_title,
            &self.artist,
        );
        Ok(full)
    }

    /// Wrap the assembled image: magic, register block, tag block, embedded
    /// player, the image, zero padding to the memory window, and the
    /// control-register blocks.
    fn build_wrapped(
        image: Vec<u8>,
        player: Vec<u8>,
        song_title: &Vec<u8>,
        game_title: &Vec<u8>,
        artist: &Vec<u8>,
    ) -> (r: Vec<u8>)
        requires
            player@.len() + image@.len() <= 0x10000,
        ensures
            r@ == spc_wrap_spec(image@, player@, song_title@, game_title@, artist@),
    {
        let ghost player0 = player@;
        let mut player = player;
        if player.len() > 0xF0 {
            player.set(0xF0, 0x0A);  // enable timers and the processor
        }
        let mut spc = ByteStream::new(spc_magic_vec());
        spc.write(26);
        spc.write(26);
        spc.write(26);
        spc.write(30);
        // registers: PC, A, X, Y, PSW, SP, reserved
        spc.write(0x00);
        spc.write(0x03);
        spc.write(0x00);
        spc.write(0x00);
        spc.write(0x00);
        spc.write(0x00);
        spc.write(0x00);
        spc.write(0x00);
        spc.write(0x00);
        let b1 = Self::as_id666_buffer(song_title.as_slice(), 32);
        spc.write_n(b1.as_slice());
        let b2 = Self::as_id666_buffer(game_title.as_slice(), 32);
        spc.write_n(b2.as_slice());
        let t1 = unknown_tag_vec();
        let b3 = Self::as_id666_buffer(t1.as_slice(), 16);
        spc.write_n(b3.as_slice());
        let t2 = created_tag_vec();
        let b4 = Self::as_id666_buffer(t2.as_slice(), 32);
        spc.write_n(b4.as_slice());
        let t3 = date_tag_vec();
        let b5 = Self::as_id666_buffer(t3.as_slice(), 11);
        spc.write_n(b5.as_slice());
        // fade start and length: none
        push_zeros(&mut spc, 8);
        let b6 = Self::as_id666_buffer(artist.as_slice(), 32);
        spc.write_n(b6.as_slice());
        // channel disable, emulator used for dumping
        push_zeros(&mut spc, 2);
        // reserved
        push_zeros(&mut spc, 45);
        spc.write_n(player.as_slice());
        spc.write_n(image.as_slice());
        // pad the memory window
        push_zeros(&mut spc, 0x10000 - player.len() - image.len());
        let dsp = dsp_regs_vec();
        spc.write_n(dsp.as_slice());
        push_zeros(&mut spc, 128);
        proof {
            assert(spc@ =~= spc_wrap_spec(image@, player0, song_title@, game_title@, artist@));
        }
        spc.into_vec()
    }
}

/// Law of determinism: the pipeline is a function of the input bytes and
/// the configuration alone, so any two results of `convert` for identical
/// input and identical codec selection are bit-identical.
pub proof fn lemma_pipeline_deterministic(
    input: Seq<u8>,
    psg: bool,
    raw: bool,
    player: Seq<u8>,
    r1: Result<ConvertModel, VgmError>,
    r2: Result<ConvertModel, VgmError>,
)
    requires
        r1 == convert_spec(input, psg, raw, player),
        r2 == convert_spec(input, psg, raw, player),
    ensures
        r1 == r2,
{
}

/// Law of offset reconciliation: for a stream whose loop offset is nonzero
/// (relative to the anchor), the loop offset written in the final image's
/// header equals the codec output length recorded when the loop boundary
/// was crossed, plus the dictionary-block length, minus the fixed anchor.
pub proof fn lemma_loop_offset_reconciliation(
    outp: Seq<u8>,
    extra: Seq<u8>,
    doff: int,
    red_loop: int,
    new_loop: int,
    player: Seq<u8>,
    song: Seq<u8>,
    game: Seq<u8>,
    artist: Seq<u8>,
)
    requires
        red_loop > 0x1C,
        0x20 <= doff <= outp.len(),
        0x1C <= new_loop + extra.len(),
        new_loop + extra.len() - 0x1C <= 0xFFFFFFFF,
    ensures
        ({
            let r = patch_loop_and_wrap(
                outp,
                extra,
                doff,
                red_loop,
                new_loop,
                true,
                player,
                song,
                game,
                artist,
            );
            r matches Ok(cm) && le32_at(cm.image, 0x1C) == new_loop + extra.len() - 0x1C
        }),
{
    let nl2 = new_loop + extra.len();
    let v = (nl2 - 0x1C) as u32;
    let outf = store_le32(outp, 0x1C, v);
    crate::bytestream::lemma_store_le32_roundtrip(outp, 0x1C, v);
    let image = outf.subrange(0, doff) + extra + outf.subrange(doff, outf.len() as int);
    assert(image[0x1C] == outf[0x1C] && image[0x1D] == outf[0x1D] && image[0x1E] == outf[0x1E]
        && image[0x1F] == outf[0x1F]);
    assert(le32_at(image, 0x1C) == le32_at(outf, 0x1C));
}

/// Each byte of the assembled image sits `256 + player.len()` bytes into
/// the wrapped output file (past the fixed tag block and the embedded
/// player binary).
pub proof fn lemma_wrap_places_image(
    image: Seq<u8>,
    player: Seq<u8>,
    song: Seq<u8>,
    game: Seq<u8>,
    artist: Seq<u8>,
    k: int,
)
    requires
        0 <= k < image.len(),
    ensures
        spc_wrap_spec(image, player, song, game, artist)[256 + player.len() as int + k] == image[k],
{
    let player2 = if player.len() > 0xF0 {
        player.update(0xF0, 0x0Au8)
    } else {
        player
    };
    assert(player2.len() == player.len());
    assert(spc_magic_spec().len() == 33);
    assert(id666_spec(song, 32).len() == 32);
    assert(id666_spec(game, 32).len() == 32);
    assert(id666_spec(unknown_tag_spec(), 16).len() == 16);
    assert(id666_spec(created_tag_spec(), 32).len() == 32);
    assert(id666_spec(date_tag_spec(), 11).len() == 11);
    assert(id666_spec(artist, 32).len() == 32);
}

/// Law of offset reconciliation for the wrapped output: the same loop
/// offset value stands at the image's anchor inside the full output file,
/// `256 + player.len()` bytes in.
pub proof fn lemma_loop_offset_reconciliation_wrapped(
    outp: Seq<u8>,
    extra: Seq<u8>,
    doff: int,
    red_loop: int,
    new_loop: int,
    player: Seq<u8>,
    song: Seq<u8>,
    game: Seq<u8>,
    artist: Seq<u8>,
)
    requires
        red_loop > 0x1C,
        0x20 <= doff <= outp.len(),
        0x1C <= new_loop + extra.len(),
        new_loop + extra.len() - 0x1C <= 0xFFFFFFFF,
    ensures
        ({
            let r = patch_loop_and_wrap(
                outp,
                extra,
                doff,
                red_loop,
                new_loop,
                false,
                player,
                song,
                game,
                artist,
            );
            r matches Ok(cm) && le32_at(cm.image, 256 + player.len() as int + 0x1C) == new_loop
                + extra.len() - 0x1C
        }),
{
    let nl2 = new_loop + extra.len();
    let v = (nl2 - 0x1C) as u32;
    let outf = store_le32(outp, 0x1C, v);
    crate::bytestream::lemma_store_le32_roundtrip(outp, 0x1C, v);
    let image = outf.subrange(0, doff) + extra + outf.subrange(doff, outf.len() as int);
    assert(image[0x1C] == outf[0x1C] && image[0x1D] == outf[0x1D] && image[0x1E] == outf[0x1E]
        && image[0x1F] == outf[0x1F]);
    lemma_wrap_places_image(image, player, song, game, artist, 0x1C);
    lemma_wrap_places_image(image, player, song, game, artist, 0x1D);
    lemma_wrap_places_image(image, player, song, game, artist, 0x1E);
    lemma_wrap_places_image(image, player, song, game, artist, 0x1F);
    let w = spc_wrap_spec(image, player, song, game, artist);
    assert(le32_at(w, 256 + player.len() as int + 0x1C) == le32_at(outf, 0x1C));
}

} // verus!



