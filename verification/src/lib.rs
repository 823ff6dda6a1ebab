//! Transcodes a logged chip-command stream (register writes and wait
//! directives) into a compact playback image for an embedded sound-chip
//! interpreter: a redundancy-elimination pass, a dictionary/bit-flag
//! compression codec, and the offset reconciliation that keeps loop points
//! and trailing metadata valid after both passes change the stream length.

pub mod bytestream;
pub mod codec;
pub mod converter;
pub mod encode;
pub mod error;
pub mod gd3;
pub mod gzip;
pub mod reduce;
pub mod nullcodec;
pub mod psgcodec;
pub mod specification;

pub use bytestream::ByteStream;
pub use converter::{Converter, ConverterFlags};
pub use error::VgmError;
pub use codec::Codec;
pub use nullcodec::NullCodec;
pub use psgcodec::PsgCodec;
