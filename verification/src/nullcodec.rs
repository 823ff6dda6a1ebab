//! The identity variant of the codec: every byte is written straight
//! through, flush is a no-op, and there is no side-channel block.

use vstd::prelude::*;
use crate::bytestream::ByteStream;
use crate::codec::Codec;

verus! {

pub struct NullCodec {
    pub output: ByteStream,
}

impl Codec for NullCodec {
    open spec fn out_bytes(&self) -> Seq<u8> {
        self.output@
    }

    open spec fn inv(&self) -> bool {
        self.output.wf() && self.output.spec_pos() == 0
    }

    open spec fn new_post(output: ByteStream, r: Self) -> bool {
        r.output@ == output@
    }

    open spec fn passthrough_post(pre: Self, post: Self, c: u8) -> bool {
        post.output@ == pre.output@.push(c)
    }

    open spec fn write_post(pre: Self, post: Self, c: u8) -> bool {
        post.output@ == pre.output@.push(c)
    }

    open spec fn flush_post(pre: Self, post: Self) -> bool {
        post == pre
    }

    open spec fn extra_data_post(&self, what: u32, r: Option<Vec<u8>>) -> bool {
        r is None
    }

    fn new(output: ByteStream) -> (r: Self) {
        NullCodec { output }
    }

    fn output_len(&self) -> (n: usize) {
        self.output.len()
    }

    fn passthrough(&mut self, c: u8) {
        self.output.write(c);
    }

    fn write(&mut self, c: u8) {
        self.output.write(c);
    }

    fn flush(&mut self) {
    }

    fn get_extra_data(&self, what: u32) -> (r: Option<Vec<u8>>) {
        None
    }
}

} // verus!
