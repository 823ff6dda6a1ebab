//! The capability interface shared by the two interchangeable compression
//! variants: append one byte (the codec tracks how many argument bytes remain
//! pending for the in-flight command), an explicit flush, a query for the
//! accumulated output length, and a query for an optional side-channel block.
//!
//! Each implementor pins its behaviour down by defining the relation spec
//! functions below; the exec methods are then contracted against them.

use vstd::prelude::*;
use crate::bytestream::ByteStream;

verus! {

pub trait Codec: Sized {
    /// The bytes accumulated in the codec's output buffer so far.
    spec fn out_bytes(&self) -> Seq<u8>;

    /// Internal well-formedness, established by `new` and kept by every
    /// operation.
    spec fn inv(&self) -> bool;

    /// How a fresh codec relates to the output buffer it was given.
    spec fn new_post(output: ByteStream, r: Self) -> bool;

    /// How `passthrough` changes the codec state.
    spec fn passthrough_post(pre: Self, post: Self, c: u8) -> bool;

    /// How `write` changes the codec state.
    spec fn write_post(pre: Self, post: Self, c: u8) -> bool;

    /// How `flush` changes the codec state.
    spec fn flush_post(pre: Self, post: Self) -> bool;

    /// What `get_extra_data` returns for each selector.
    spec fn extra_data_post(&self, what: u32, r: Option<Vec<u8>>) -> bool;

    fn new(output: ByteStream) -> (r: Self)
        requires
            output.wf(),
            output.spec_pos() == 0,
        ensures
            Self::new_post(output, r),
            r.inv(),
    ;

    fn output_len(&self) -> (n: usize)
        requires
            self.inv(),
        ensures
            n == self.out_bytes().len(),
    ;

    /// Add one byte of data without doing any processing on it.
    fn passthrough(&mut self, c: u8)
        requires
            old(self).inv(),
        ensures
            Self::passthrough_post(*old(self), *final(self), c),
            final(self).inv(),
    ;

    /// Add one byte of data.
    fn write(&mut self, c: u8)
        requires
            old(self).inv(),
        ensures
            Self::write_post(*old(self), *final(self), c),
            final(self).inv(),
    ;

    /// Ensure that all data processed by the codec is written to its output.
    fn flush(&mut self)
        requires
            old(self).inv(),
        ensures
            Self::flush_post(*old(self), *final(self)),
            final(self).inv(),
    ;

    fn get_extra_data(&self, what: u32) -> (r: Option<Vec<u8>>)
        requires
            self.inv(),
        ensures
            self.extra_data_post(what, r),
    ;
}

} // verus!
