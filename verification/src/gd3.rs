//! Extraction of the trailing-metadata strings: each character is stored as
//! one real byte followed by one ignored byte, the string ends at a real
//! zero byte (followed by one more ignored byte), and each read is capped at
//! 32 characters regardless of terminator.

use vstd::prelude::*;
use crate::bytestream::ByteStream;

verus! {

/// The characters of the string starting at `pos`: real bytes two apart,
/// stopping at a zero byte, the end of the data, or after `rem` characters.
pub open spec fn gd3_chars(data: Seq<u8>, pos: int, rem: int) -> Seq<u8>
    decreases rem,
{
    if rem <= 0 || pos < 0 || pos >= data.len() || data[pos] == 0 {
        Seq::empty()
    } else {
        seq![data[pos]] + gd3_chars(data, pos + 2, rem - 1)
    }
}

/// The position just past the string starting at `pos`: past the zero byte
/// and its ignored partner, clamped to the end of the data.
pub open spec fn gd3_next(data: Seq<u8>, pos: int) -> int
    decreases data.len() - pos,
{
    if pos < 0 || pos >= data.len() {
        data.len() as int
    } else if data[pos] == 0 {
        if pos + 2 <= data.len() {
            pos + 2
        } else {
            data.len() as int
        }
    } else if pos + 2 <= data.len() {
        gd3_next(data, pos + 2)
    } else {
        data.len() as int
    }
}

/// Read one trailing-metadata string from the stream's position, appending
/// its real bytes (at most 32) to `out` and leaving the cursor just past the
/// string's terminator.
pub fn read_gd3_string(bs: &mut ByteStream, out: &mut Vec<u8>)
    requires
        old(bs).wf(),
    ensures
        final(bs)@ == old(bs)@,
        final(bs).wf(),
        final(out)@ == old(out)@ + gd3_chars(old(bs)@, old(bs).spec_pos(), 32),
        final(bs).spec_pos() == gd3_next(old(bs)@, old(bs).spec_pos()),
{
    let ghost data = bs@;
    let ghost pos0 = bs.spec_pos();
    let mut i: usize = 0;
    loop
        invariant_except_break
            bs.wf(),
            bs@ == data,
            data == old(bs)@,
            pos0 == old(bs).spec_pos(),
            i <= 32,
            old(out)@ + gd3_chars(data, pos0, 32) == out@ + gd3_chars(
                data,
                bs.spec_pos(),
                32 - i,
            ),
            gd3_next(data, pos0) == gd3_next(data, bs.spec_pos()),
        ensures
            bs.wf(),
            bs@ == data,
            data == old(bs)@,
            pos0 == old(bs).spec_pos(),
            out@ == old(out)@ + gd3_chars(data, pos0, 32),
            gd3_next(data, pos0) == gd3_next(data, bs.spec_pos()),
        decreases 32 - i,
    {
        if i >= 32 {
            proof {
                assert(out@ =~= old(out)@ + gd3_chars(data, pos0, 32));
            }
            break ;
        }
        if bs.available() == 0 {
            proof {
                assert(out@ =~= old(out)@ + gd3_chars(data, pos0, 32));
            }
            break ;
        }
        let b = bs.peek();
        if b == 0 {
            proof {
                assert(out@ =~= old(out)@ + gd3_chars(data, pos0, 32));
            }
            break ;
        }
        let ghost p = bs.spec_pos();
        let ghost iold = i as int;
        out.push(b);
        let avail = bs.available();
        if avail >= 2 {
            bs.skip(2);
        } else {
            bs.skip(avail);
        }
        i = i + 1;
        proof {
            assert(gd3_chars(data, p, 32 - iold) =~= seq![b] + gd3_chars(data, p + 2, 31 - iold));
            if bs.spec_pos() != p + 2 {
                assert(gd3_chars(data, p + 2, 31 - iold) =~= Seq::<u8>::empty());
                assert(gd3_chars(data, bs.spec_pos(), 31 - iold) =~= Seq::<u8>::empty());
            }
            assert(out@ + gd3_chars(data, bs.spec_pos(), 32 - i) =~= old(out)@ + gd3_chars(
                data,
                pos0,
                32,
            ));
        }
    }
    // skip the rest of an over-long string up to its terminator
    loop
        invariant_except_break
            bs.wf(),
            bs@ == data,
            gd3_next(data, pos0) == gd3_next(data, bs.spec_pos()),
        ensures
            bs.wf(),
            bs@ == data,
            gd3_next(data, pos0) == gd3_next(data, bs.spec_pos()),
            bs.spec_pos() >= data.len() || data[bs.spec_pos()] == 0,
        decreases data.len() - bs.spec_pos(),
    {
        if bs.available() == 0 {
            break ;
        }
        if bs.peek() == 0 {
            break ;
        }
        let avail = bs.available();
        if avail >= 2 {
            bs.skip(2);
        } else {
            bs.skip(avail);
        }
    }
    // step past the terminator and its ignored partner byte
    let avail = bs.available();
    if avail >= 2 {
        bs.skip(2);
    } else {
        bs.skip(avail);
    }
}

} // verus!
