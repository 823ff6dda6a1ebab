use vgm2spc::ByteStream;
use vgm2spc::Codec;
use vgm2spc::PsgCodec;

#[test]
fn test_write_psg() {
    let bs = ByteStream::new(Vec::new());
    let mut codec = PsgCodec::new(bs);
    assert_eq!(codec.flags, 0);
    codec.write(0x50);
    assert_eq!(codec.remaning_argument_bytes, 1);
    codec.write(0x12);
    assert_eq!(codec.output.len(), 0);
    assert_eq!(codec.pending_data.len(), 1);
    assert_eq!(codec.remaning_argument_bytes, 0);
    assert_eq!(codec.flags, 1);
    assert_eq!(codec.num_flags, 1);
}

#[test]
fn test_write_long_wait() {
    let bs = ByteStream::new(Vec::new());
    let mut codec = PsgCodec::new(bs);
    codec.write(0x61);
    assert_eq!(codec.pending_data.len(), 0);
    assert_eq!(codec.long_wait_table.len(), 0);
    assert_eq!(codec.remaning_argument_bytes, 2);
    codec.write(0x12);
    codec.write(0x34);
    assert_eq!(codec.pending_data.len(), 1);
    assert_eq!(codec.long_wait_table.len(), 1);
    assert_eq!(codec.remaning_argument_bytes, 0);
    assert_eq!(codec.num_flags, 1);
}

#[test]
fn test_implicit_flush() {
    let bs = ByteStream::new(Vec::new());
    let mut codec = PsgCodec::new(bs);
    assert_eq!(codec.flags, 0);
    for _n in 0..8 {
        codec.write(0x50);
        codec.write(0x12);
    }
    codec.write(0x50);
    assert_eq!(codec.output.len(), 9);
    assert_eq!(codec.pending_data.len(), 0);
    assert_eq!(codec.flags, 1);
    assert_eq!(codec.num_flags, 1);
}

// Two compressible-class writes followed by an explicit flush: one flag
// byte with bits 0 and 1 set, the two argument bytes, the remaining slots
// padded with the reserved no-op marker, and an all-empty dictionary block.
#[test]
fn test_two_psg_writes_then_flush() {
    let bs = ByteStream::new(Vec::new());
    let mut codec = PsgCodec::new(bs);
    codec.write(0x50);
    codec.write(0x12);
    codec.write(0x50);
    codec.write(0x34);
    codec.flush();
    let out = codec.output.read_available();
    assert_eq!(
        out,
        vec![0x03, 0x12, 0x34, 0x4E, 0x4E, 0x4E, 0x4E, 0x4E, 0x4E]
    );
    let block = codec.get_extra_data(0).unwrap();
    assert_eq!(block.len(), 39);
    assert_eq!(&block[0..7], &[0x67, 0x66, 0x02, 0x20, 0x00, 0x00, 0x00]);
    assert!(block[7..].iter().all(|&b| b == 0));
}

// The same long-wait duration twice: the same one-byte dictionary-index
// opcode both times, and exactly one table entry, at slot 0.
#[test]
fn test_repeated_long_wait_duration() {
    let bs = ByteStream::new(Vec::new());
    let mut codec = PsgCodec::new(bs);
    codec.write(0x61);
    codec.write(0x34);
    codec.write(0x12);
    codec.write(0x61);
    codec.write(0x34);
    codec.write(0x12);
    assert_eq!(codec.pending_data, vec![0x90, 0x90]);
    assert_eq!(codec.long_wait_table, vec![0x1234]);
    let block = codec.get_extra_data(0).unwrap();
    assert_eq!(block[7], 0x34);
    assert_eq!(block[8], 0x12);
    assert!(block[9..].iter().all(|&b| b == 0));
}

// The first 16 distinct durations each get a fresh index in first-seen
// order; the 17th distinct duration goes out uncompressed as the original
// three-byte form; a repeat of an early duration reuses its index.
#[test]
fn test_dictionary_capacity() {
    let bs = ByteStream::new(Vec::new());
    let mut codec = PsgCodec::new(bs);
    for d in 0u16..16 {
        let dur = 0x0100 + d;
        codec.write(0x61);
        codec.write((dur & 0xFF) as u8);
        codec.write((dur >> 8) as u8);
        codec.flush();
    }
    assert_eq!(codec.long_wait_table.len(), 16);
    for d in 0u16..16 {
        assert_eq!(codec.long_wait_table[d as usize], 0x0100 + d);
    }
    // the 17th distinct duration goes out uncompressed
    codec.write(0x61);
    codec.write(0x99);
    codec.write(0x11);
    assert_eq!(codec.pending_data, vec![0x61, 0x99, 0x11]);
    assert_eq!(codec.long_wait_table.len(), 16);
    codec.flush();
    // a repeat of the third duration reuses index 2
    codec.write(0x61);
    codec.write(0x02);
    codec.write(0x01);
    assert_eq!(codec.pending_data, vec![0x92]);
}

// A batch of exactly 8 commands goes out with no padding; the explicit
// flush that follows finds an empty batch and emits nothing more.
#[test]
fn test_full_batch_emits_without_padding() {
    let bs = ByteStream::new(Vec::new());
    let mut codec = PsgCodec::new(bs);
    for _ in 0..8 {
        codec.write(0x50);
        codec.write(0x77);
    }
    codec.flush();
    let out = codec.output.read_available();
    assert_eq!(out.len(), 9);
    assert_eq!(out[0], 0xFF);
    assert!(out[1..].iter().all(|&b| b == 0x77));
}

// The batch is emitted the moment its 8th slot fills: after exactly 8
// compressible-class commands the output already holds the flag byte and
// the 8 argument bytes, with no padding, and the batch state is reset.
#[test]
fn test_eighth_slot_flushes_immediately() {
    let bs = ByteStream::new(Vec::new());
    let mut codec = PsgCodec::new(bs);
    for i in 0..8u8 {
        codec.write(0x50);
        codec.write(0x10 + i);
    }
    assert_eq!(codec.num_flags, 0);
    assert_eq!(codec.pending_data.len(), 0);
    let out = codec.output.read_available();
    assert_eq!(
        out,
        vec![0xFF, 0x10, 0x11, 0x12, 0x13, 0x14, 0x15, 0x16, 0x17]
    );
}
