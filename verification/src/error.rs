//! Error taxonomy of the transcoding pipeline. Every kind is fatal: the run
//! aborts and no partial output is handed out.

use vstd::prelude::*;

verus! {

#[derive(Clone, Copy, Debug, PartialEq, Eq, Structural)]
pub enum VgmError {
    /// The input holds too few bytes for the fixed-layout header record.
    InputTooSmall,
    /// A command stream ended in the middle of a command's argument bytes,
    /// or ran out without an end marker.
    TruncatedStream,
    /// A data block of a subtype other than the one supported form.
    IllegalCommand,
    /// An offset field of the header cannot be reconciled with the
    /// transformed stream (it would point outside the image).
    BadOffset,
    /// The assembled image would not fit the fixed target memory window;
    /// carries the maximum size the image may have after packing, given the
    /// embedded player's size.
    DataTooLarge { max_size: u64 },
    /// The input is not a plain stream, yet not a well-formed compressed
    /// container either.
    BadCompression,
}

} // verus!
