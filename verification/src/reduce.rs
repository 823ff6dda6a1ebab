//! The redundancy-elimination pass, as a fold over the raw command stream:
//! short-wait merging, distinguished-register write elision, conditional
//! PCM-seek retention, data-block passthrough, and translation of the loop
//! target into the reduced stream.

use vstd::prelude::*;
use crate::bytestream::le32_at;
use crate::error::VgmError;
use crate::specification::{
    YM2612_LO_WRITE,
    END_OF_SOUND_DATA,
    DATA_BLOCK,
    WAIT_1,
    YM2612_WRITE_LO_WAIT_0,
    YM2612_WRITE_LO_WAIT_15,
    SEEK_PCM,
    spec_num_argument_bytes,
};

verus! {

/// The running state of the pass.
pub struct ReduceState {
    /// The reduced stream emitted so far (starts out holding the header bytes).
    pub out: Seq<u8>,
    /// Upper two bits last observed for the mode-control sub-register.
    pub mode: u8,
    /// Input position of the loop target.
    pub loop_in: int,
    /// Translated loop position: the reduced stream's length at the moment
    /// the input cursor crosses `loop_in`.
    pub loop_out: int,
    /// Whether PCM-seek commands are retained (identity codec selected).
    pub keep_seek: bool,
    /// Length of the verbatim header prefix at the front of `out`; the
    /// backward short-wait merge never edits bytes below it.
    pub floor: int,
}

/// Forward short-wait merging: consume immediately following short-wait
/// commands while the summed duration stays below 16; return the merged
/// duration and the position of the first unconsumed byte.
pub open spec fn merge_forward(input: Seq<u8>, p: int, wait: u8) -> Result<(u8, int), VgmError>
    decreases input.len() - p,
{
    if p < 0 || p >= input.len() {
        Err(VgmError::TruncatedStream)
    } else if input[p] & 0xF0 != WAIT_1 {
        Ok((wait, p))
    } else if wait + (input[p] & 0x0F) + 1 < 0x10 {
        merge_forward(input, p + 1, (wait + (input[p] & 0x0F) + 1) as u8)
    } else {
        Ok((wait, p))
    }
}

/// On success, forward merging stays inside the input and never moves
/// backwards, and the merged duration still fits in four bits.
pub proof fn lemma_merge_forward_bounds(input: Seq<u8>, p: int, wait: u8)
    requires
        wait < 0x10,
    ensures
        merge_forward(input, p, wait) matches Ok(r) ==> p <= r.1 < input.len() && r.0 < 0x10,
    decreases input.len() - p,
{
    if p < 0 || p >= input.len() {
    } else if input[p] & 0xF0 != WAIT_1 {
    } else if wait + (input[p] & 0x0F) + 1 < 0x10 {
        lemma_merge_forward_bounds(input, p + 1, (wait + (input[p] & 0x0F) + 1) as u8);
    } else {
    }
}

/// The whole pass from position `pos` onward. Every recursive step consumes
/// at least one input byte; an input that runs out before its end marker, or
/// holds a data block of an unsupported subtype, is rejected.
pub open spec fn reduce_from(input: Seq<u8>, pos: int, st: ReduceState) -> Result<
    ReduceState,
    VgmError,
>
    decreases input.len() - pos,
{
    if pos < 0 || pos >= input.len() {
        Err(VgmError::TruncatedStream)
    } else {
        let st = if pos == st.loop_in {
            ReduceState { loop_out: st.out.len() as int, ..st }
        } else {
            st
        };
        let c = input[pos];
        if c == YM2612_LO_WRITE {
            if pos + 3 > input.len() {
                Err(VgmError::TruncatedStream)
            } else {
                let a1 = input[pos + 1];
                let a2 = input[pos + 2];
                if a1 == 0x27 {
                    if (a2 >> 6) != st.mode {
                        reduce_from(
                            input,
                            pos + 3,
                            ReduceState {
                                out: st.out + seq![c, a1, a2],
                                mode: (a2 >> 6) as u8,
                                ..st
                            },
                        )
                    } else {
                        reduce_from(input, pos + 3, st)
                    }
                } else if a1 == 0x25 || a1 == 0x26 {
                    reduce_from(input, pos + 3, st)
                } else {
                    reduce_from(input, pos + 3, ReduceState { out: st.out + seq![c, a1, a2], ..st })
                }
            }
        } else if c == END_OF_SOUND_DATA {
            Ok(
                ReduceState {
                    out: st.out.push(c) + input.subrange(pos + 1, input.len() as int),
                    ..st
                },
            )
        } else if c == DATA_BLOCK {
            if pos + 2 > input.len() {
                Err(VgmError::TruncatedStream)
            } else if input[pos + 1] != 0x66 {
                Err(VgmError::IllegalCommand)
            } else if pos + 7 > input.len() {
                Err(VgmError::TruncatedStream)
            } else {
                let size = le32_at(input, pos + 3) as int;
                if pos + 7 + size > input.len() {
                    Err(VgmError::TruncatedStream)
                } else {
                    reduce_from(
                        input,
                        pos + 7 + size,
                        ReduceState { out: st.out + input.subrange(pos, pos + 7 + size), ..st },
                    )
                }
            }
        } else if YM2612_WRITE_LO_WAIT_0 <= c && c <= YM2612_WRITE_LO_WAIT_15 {
            let wait0 = c & 0x0F;
            if pos + 1 >= input.len() {
                Err(VgmError::TruncatedStream)
            } else if input[pos + 1] & 0xF0 == WAIT_1 {
                match merge_forward(input, pos + 1, wait0) {
                    Ok(r) => {
                        proof {
                            assert((c & 0x0F) < 0x10) by (bit_vector);
                            lemma_merge_forward_bounds(input, pos + 1, wait0);
                        }
                        reduce_from(
                            input,
                            r.1,
                            ReduceState { out: st.out.push(0x80u8 | r.0), ..st },
                        )
                    },
                    Err(e) => Err(e),
                }
            } else {
                let out1 = if st.out.len() > st.floor && st.out.last() & 0xF0 == WAIT_1 {
                    if wait0 + (st.out.last() & 0x0F) + 1 < 0x10 {
                        st.out.update(
                            st.out.len() - 1,
                            0x80u8 | ((wait0 + (st.out.last() & 0x0F) + 1) as u8),
                        )
                    } else {
                        // merge is capped: the summed duration would reach 16,
                        // so a new short-wait command starts instead
                        st.out.push(0x80u8 | wait0)
                    }
                } else {
                    st.out.push(0x80u8 | wait0)
                };
                reduce_from(input, pos + 1, ReduceState { out: out1, ..st })
            }
        } else if c == SEEK_PCM {
            if pos + 5 > input.len() {
                Err(VgmError::TruncatedStream)
            } else {
                let dest = le32_at(input, pos + 1);
                if dest != 0 && st.keep_seek {
                    reduce_from(
                        input,
                        pos + 5,
                        ReduceState { out: st.out + input.subrange(pos, pos + 5), ..st },
                    )
                } else {
                    // the seek is dropped whole, its argument bytes included
                    reduce_from(input, pos + 5, st)
                }
            }
        } else {
            let n = spec_num_argument_bytes(c) as int;
            if pos + 1 + n > input.len() {
                Err(VgmError::TruncatedStream)
            } else {
                reduce_from(
                    input,
                    pos + 1 + n,
                    ReduceState { out: st.out + input.subrange(pos, pos + 1 + n), ..st },
                )
            }
        }
    }
}

/// The pass only ever appends to (or edits in place) the reduced stream:
/// its output never gets shorter than what was already emitted.
pub proof fn lemma_reduce_out_grows(input: Seq<u8>, pos: int, st: ReduceState)
    ensures
        reduce_from(input, pos, st) matches Ok(m) ==> m.out.len() >= st.out.len(),
    decreases input.len() - pos,
{
    if pos < 0 || pos >= input.len() {
    } else {
        let st1 = if pos == st.loop_in {
            ReduceState { loop_out: st.out.len() as int, ..st }
        } else {
            st
        };
        let c = input[pos];
        if c == YM2612_LO_WRITE {
            if pos + 3 > input.len() {
            } else {
                let a1 = input[pos + 1];
                let a2 = input[pos + 2];
                if a1 == 0x27 {
                    if (a2 >> 6) != st1.mode {
                        lemma_reduce_out_grows(
                            input,
                            pos + 3,
                            ReduceState {
                                out: st1.out + seq![c, a1, a2],
                                mode: (a2 >> 6) as u8,
                                ..st1
                            },
                        );
                    } else {
                        lemma_reduce_out_grows(input, pos + 3, st1);
                    }
                } else if a1 == 0x25 || a1 == 0x26 {
                    lemma_reduce_out_grows(input, pos + 3, st1);
                } else {
                    lemma_reduce_out_grows(
                        input,
                        pos + 3,
                        ReduceState { out: st1.out + seq![c, a1, a2], ..st1 },
                    );
                }
            }
        } else if c == END_OF_SOUND_DATA {
        } else if c == DATA_BLOCK {
            if pos + 2 > input.len() {
            } else if input[pos + 1] != 0x66 {
            } else if pos + 7 > input.len() {
            } else {
                let size = le32_at(input, pos + 3) as int;
                if pos + 7 + size > input.len() {
                } else {
                    lemma_reduce_out_grows(
                        input,
                        pos + 7 + size,
                        ReduceState { out: st1.out + input.subrange(pos, pos + 7 + size), ..st1 },
                    );
                }
            }
        } else if YM2612_WRITE_LO_WAIT_0 <= c && c <= YM2612_WRITE_LO_WAIT_15 {
            let wait0 = c & 0x0F;
            if pos + 1 >= input.len() {
            } else if input[pos + 1] & 0xF0 == WAIT_1 {
                assert((c & 0x0F) < 0x10) by (bit_vector);
                lemma_merge_forward_bounds(input, pos + 1, wait0);
                match merge_forward(input, pos + 1, wait0) {
                    Ok(r) => {
                        lemma_reduce_out_grows(
                            input,
                            r.1,
                            ReduceState { out: st1.out.push(0x80u8 | r.0), ..st1 },
                        );
                    },
                    Err(e) => {},
                }
            } else {
                let out1 = if st1.out.len() > st1.floor && st1.out.last() & 0xF0 == WAIT_1 {
                    if wait0 + (st1.out.last() & 0x0F) + 1 < 0x10 {
                        st1.out.update(
                            st1.out.len() - 1,
                            0x80u8 | ((wait0 + (st1.out.last() & 0x0F) + 1) as u8),
                        )
                    } else {
                        st1.out.push(0x80u8 | wait0)
                    }
                } else {
                    st1.out.push(0x80u8 | wait0)
                };
                lemma_reduce_out_grows(input, pos + 1, ReduceState { out: out1, ..st1 });
            }
        } else if c == SEEK_PCM {
            if pos + 5 > input.len() {
            } else {
                let dest = le32_at(input, pos + 1);
                if dest != 0 && st1.keep_seek {
                    lemma_reduce_out_grows(
                        input,
                        pos + 5,
                        ReduceState { out: st1.out + input.subrange(pos, pos + 5), ..st1 },
                    );
                } else {
                    lemma_reduce_out_grows(input, pos + 5, st1);
                }
            }
        } else {
            let n = spec_num_argument_bytes(c) as int;
            if pos + 1 + n > input.len() {
            } else {
                lemma_reduce_out_grows(
                    input,
                    pos + 1 + n,
                    ReduceState { out: st1.out + input.subrange(pos, pos + 1 + n), ..st1 },
                );
            }
        }
    }
}

/// Law of short-wait merging: a short-wait command of duration `a`
/// followed directly by one of duration `b` merges into a single
/// short-wait command of duration `a + b + 1` when that sum stays below
/// 16; otherwise the two commands stay separate. Stated away from the
/// loop target (`st.loop_in < 0`).
pub proof fn lemma_short_wait_merge(a: u8, b: u8, st: ReduceState)
    requires
        a < 16,
        b < 16,
        st.loop_in < 0,
    ensures
        ({
            let input = seq![(0x80u8 | a), (0x70u8 | b), 0x66u8];
            let r = reduce_from(input, 0, st);
            if a + b + 1 < 16 {
                r matches Ok(m) && m.out == st.out.push(0x80u8 | ((a + b + 1) as u8)).push(0x66u8)
            } else {
                r matches Ok(m) && m.out == st.out.push(0x80u8 | a).push(0x70u8 | b).push(0x66u8)
            }
        }),
{
    let input = seq![(0x80u8 | a), (0x70u8 | b), 0x66u8];
    let c = input[0];
    assert(c == (0x80u8 | a));
    assert(a < 16 ==> 0x80u8 <= (0x80u8 | a) <= 0x8Fu8) by (bit_vector);
    assert(a < 16 ==> ((0x80u8 | a) & 0x0F) == a) by (bit_vector);
    assert(b < 16 ==> ((0x70u8 | b) & 0xF0) == 0x70u8) by (bit_vector);
    assert(b < 16 ==> ((0x70u8 | b) & 0x0F) == b) by (bit_vector);
    assert(b < 16 ==> 0x70u8 <= (0x70u8 | b) <= 0x7Fu8) by (bit_vector);
    assert((0x66u8 & 0xF0u8) != 0x70u8) by (bit_vector);
    let c2 = 0x70u8 | b;
    if a + b + 1 < 16 {
        assert(merge_forward(input, 1, a) == merge_forward(input, 2, (a + b + 1) as u8));
        assert(merge_forward(input, 2, (a + b + 1) as u8) == Ok::<(u8, int), VgmError>(
            ((a + b + 1) as u8, 2),
        ));
        let st1 = ReduceState { out: st.out.push(0x80u8 | ((a + b + 1) as u8)), ..st };
        assert(reduce_from(input, 0, st) == reduce_from(input, 2, st1));
        assert(reduce_from(input, 2, st1) matches Ok(m) && m.out == st1.out.push(0x66u8)) by {
            assert(input.subrange(3, 3) =~= Seq::<u8>::empty());
            assert(st1.out.push(0x66u8) + input.subrange(3, 3) =~= st1.out.push(0x66u8));
        };
    } else {
        assert(merge_forward(input, 1, a) == Ok::<(u8, int), VgmError>((a, 1)));
        assert((0x80u8 | a) == (0x80u8 | a));
        let st1 = ReduceState { out: st.out.push(0x80u8 | a), ..st };
        // the short-wait command that follows passes through whole
        assert(spec_num_argument_bytes(c2) == 0);
        assert(st1.out + input.subrange(1, 2) =~= st.out.push(0x80u8 | a).push(0x70u8 | b));
        let st2 = ReduceState { out: st1.out + input.subrange(1, 2), ..st1 };
        assert(reduce_from(input, 0, st) == reduce_from(input, 1, st1));
        assert(reduce_from(input, 1, st1) == reduce_from(input, 2, st2));
        assert(reduce_from(input, 2, st2) matches Ok(m) && m.out == st2.out.push(0x66u8)) by {
            assert(input.subrange(3, 3) =~= Seq::<u8>::empty());
            assert(st2.out.push(0x66u8) + input.subrange(3, 3) =~= st2.out.push(0x66u8));
        };
    }
}

/// Law of distinguished-register elision: after a mode-control write whose
/// upper two bits differ from the state (and is therefore kept), a second
/// mode-control write is dropped when its upper two bits equal the first
/// one's, and kept when they differ. Stated away from the loop target.
pub proof fn lemma_mode_write_elision(x: u8, y: u8, st: ReduceState)
    requires
        st.loop_in < 0,
        (x >> 6) != st.mode,
    ensures
        ({
            let input = seq![0x52u8, 0x27u8, x, 0x52u8, 0x27u8, y, 0x66u8];
            let r = reduce_from(input, 0, st);
            &&& (y >> 6) == (x >> 6) ==> (r matches Ok(m) && m.out == st.out + seq![
                0x52u8,
                0x27u8,
                x,
                0x66u8,
            ])
            &&& (y >> 6) != (x >> 6) ==> (r matches Ok(m) && m.out == st.out + seq![
                0x52u8,
                0x27u8,
                x,
                0x52u8,
                0x27u8,
                y,
                0x66u8,
            ])
        }),
{
    let input = seq![0x52u8, 0x27u8, x, 0x52u8, 0x27u8, y, 0x66u8];
    let st1 = ReduceState { out: st.out + seq![0x52u8, 0x27u8, x], mode: (x >> 6) as u8, ..st };
    assert(reduce_from(input, 0, st) == reduce_from(input, 3, st1));
    if (y >> 6) == (x >> 6) {
        assert(reduce_from(input, 3, st1) == reduce_from(input, 6, st1));
        assert(reduce_from(input, 6, st1) matches Ok(m) && m.out == st1.out.push(0x66u8)) by {
            assert(input.subrange(7, 7) =~= Seq::<u8>::empty());
            assert(st1.out.push(0x66u8) + input.subrange(7, 7) =~= st1.out.push(0x66u8));
        };
        assert(st1.out.push(0x66u8) =~= st.out + seq![0x52u8, 0x27u8, x, 0x66u8]);
    } else {
        let st2 = ReduceState {
            out: st1.out + seq![0x52u8, 0x27u8, y],
            mode: (y >> 6) as u8,
            ..st1
        };
        assert(reduce_from(input, 3, st1) == reduce_from(input, 6, st2));
        assert(reduce_from(input, 6, st2) matches Ok(m) && m.out == st2.out.push(0x66u8)) by {
            assert(input.subrange(7, 7) =~= Seq::<u8>::empty());
            assert(st2.out.push(0x66u8) + input.subrange(7, 7) =~= st2.out.push(0x66u8));
        };
        assert(st2.out.push(0x66u8) =~= st.out + seq![0x52u8, 0x27u8, x, 0x52u8, 0x27u8, y, 0x66u8]);
    }
}

} // verus!
