use vgm2spc::ByteStream;
use vgm2spc::Converter;
use vgm2spc::ConverterFlags;
use vgm2spc::VgmError;
use vgm2spc::specification::FileHeader;

// A minimal header: magic, a pre-1.50 version (so data starts at the fixed
// minimum offset), and the given trailing-metadata and loop offsets.
fn header_bytes(gd3_offset: u32, loop_offset: u32) -> Vec<u8> {
    let mut h = vec![0u8; 0x40];
    h[0] = 0x56; // 'V'
    h[1] = 0x67; // 'g'
    h[2] = 0x6D; // 'm'
    h[3] = 0x20; // ' '
    h[8] = 0x00;
    h[9] = 0x01; // version 0x00000100
    h[0x14..0x18].copy_from_slice(&gd3_offset.to_le_bytes());
    h[0x1C..0x20].copy_from_slice(&loop_offset.to_le_bytes());
    h
}

fn psg_raw_flags() -> ConverterFlags {
    ConverterFlags { psg_codec: true, assume_vgz: false, raw_output: true }
}

fn le32(bytes: &[u8], i: usize) -> u32 {
    u32::from_le_bytes([bytes[i], bytes[i + 1], bytes[i + 2], bytes[i + 3]])
}

#[test]
fn test_pipeline_deterministic() {
    let mut input = header_bytes(0, 0);
    input.extend_from_slice(&[0x50, 0x12, 0x50, 0x34, 0x66]);
    let mut c1 = Converter::new();
    let out1 = c1.convert(input.clone(), Vec::new(), psg_raw_flags()).unwrap();
    let mut c2 = Converter::new();
    let out2 = c2.convert(input, Vec::new(), psg_raw_flags()).unwrap();
    assert_eq!(out1, out2);
}

#[test]
fn test_small_stream_image_layout() {
    let mut input = header_bytes(0, 0);
    input.extend_from_slice(&[0x50, 0x12, 0x50, 0x34, 0x66]);
    let mut conv = Converter::new();
    let out = conv.convert(input, Vec::new(), psg_raw_flags()).unwrap();
    // header (0x40) + dictionary block (39) + one batch (9 bytes) + marker
    assert_eq!(out.len(), 0x40 + 39 + 10);
    assert_eq!(out[8], 0x52); // marked as compressed
    assert_eq!(le32(&out, 4), (0x40 + 10 + 39 - 4) as u32); // end-of-data
    assert_eq!(&out[0x40..0x47], &[0x67, 0x66, 0x02, 0x20, 0x00, 0x00, 0x00]);
    assert!(out[0x47..0x40 + 39].iter().all(|&b| b == 0));
    // the batch: flag bits 0-1 for the two compressible writes, their
    // argument bytes, then no-op padding; the end marker follows the
    // batch, outside any slot
    assert_eq!(
        &out[0x40 + 39..],
        &[0x03, 0x12, 0x34, 0x4E, 0x4E, 0x4E, 0x4E, 0x4E, 0x4E, 0x66]
    );
}

#[test]
fn test_loop_offset_reconciliation() {
    // the loop target points at the end marker (input position 0x42)
    let mut input = header_bytes(0, 0x42 - 0x1C);
    input.extend_from_slice(&[0x50, 0x12, 0x66]);
    let mut conv = Converter::new();
    let out = conv.convert(input, Vec::new(), psg_raw_flags()).unwrap();
    // at the boundary the codec flushed one batch: 0x40 + 9 bytes out
    let recorded = 0x40 + 9;
    assert_eq!(le32(&out, 0x1C), (recorded + 39 - 0x1C) as u32);
    assert_eq!(le32(&out, 4), (0x40 + 10 + 39 - 4) as u32);
    assert_eq!(out.len(), 0x40 + 39 + 10);
}

#[test]
fn test_null_codec_copies_stream() {
    let mut input = header_bytes(0, 0);
    input.extend_from_slice(&[0x50, 0x12, 0x61, 0x34, 0x12, 0x66]);
    let flags = ConverterFlags { psg_codec: false, assume_vgz: false, raw_output: true };
    let mut conv = Converter::new();
    let out = conv.convert(input.clone(), Vec::new(), flags).unwrap();
    // identity codec, no dictionary block: the commands pass through
    assert_eq!(out.len(), input.len());
    assert_eq!(&out[0x40..], &input[0x40..]);
    assert_eq!(out[8], 0x52);
}

#[test]
fn test_short_wait_merging_in_pipeline() {
    // wait 3 followed by wait 2+1 merges into wait 6 (3+2+1 < 16)
    let mut input = header_bytes(0, 0);
    input.extend_from_slice(&[0x83, 0x72, 0x66]);
    let flags = ConverterFlags { psg_codec: false, assume_vgz: false, raw_output: true };
    let mut conv = Converter::new();
    let out = conv.convert(input, Vec::new(), flags).unwrap();
    assert_eq!(&out[0x40..], &[0x86, 0x66]);

    // at or over 16 the two commands stay separate
    let mut input2 = header_bytes(0, 0);
    input2.extend_from_slice(&[0x8F, 0x7F, 0x66]);
    let mut conv2 = Converter::new();
    let out2 = conv2.convert(input2, Vec::new(), flags).unwrap();
    assert_eq!(&out2[0x40..], &[0x8F, 0x7F, 0x66]);
}

#[test]
fn test_mode_write_elision_in_pipeline() {
    // the second mode-control write repeats the upper two bits: dropped
    let mut input = header_bytes(0, 0);
    input.extend_from_slice(&[0x52, 0x27, 0x40, 0x52, 0x27, 0x55, 0x66]);
    let flags = ConverterFlags { psg_codec: false, assume_vgz: false, raw_output: true };
    let mut conv = Converter::new();
    let out = conv.convert(input, Vec::new(), flags).unwrap();
    assert_eq!(&out[0x40..], &[0x52, 0x27, 0x40, 0x66]);

    // different upper two bits: kept
    let mut input2 = header_bytes(0, 0);
    input2.extend_from_slice(&[0x52, 0x27, 0x40, 0x52, 0x27, 0x80, 0x66]);
    let mut conv2 = Converter::new();
    let out2 = conv2.convert(input2, Vec::new(), flags).unwrap();
    assert_eq!(&out2[0x40..], &[0x52, 0x27, 0x40, 0x52, 0x27, 0x80, 0x66]);
}

#[test]
fn test_input_too_small() {
    let mut conv = Converter::new();
    let r = conv.convert(vec![1, 2, 3], Vec::new(), psg_raw_flags());
    assert_eq!(r, Err(VgmError::InputTooSmall));
}

#[test]
fn test_truncated_stream() {
    let mut input = header_bytes(0, 0);
    input.extend_from_slice(&[0x50, 0x12]); // no end marker
    let mut conv = Converter::new();
    let r = conv.convert(input, Vec::new(), psg_raw_flags());
    assert_eq!(r, Err(VgmError::TruncatedStream));
}

#[test]
fn test_illegal_data_block() {
    let mut input = header_bytes(0, 0);
    input.extend_from_slice(&[0x67, 0x00, 0x00, 0x00, 0x00, 0x00, 0x00, 0x66]);
    let mut conv = Converter::new();
    let r = conv.convert(input, Vec::new(), psg_raw_flags());
    assert_eq!(r, Err(VgmError::IllegalCommand));
}

#[test]
fn test_data_too_large() {
    let mut input = header_bytes(0, 0);
    input.extend_from_slice(&vec![0x62; 0x10000]);
    input.push(0x66);
    let flags = ConverterFlags { psg_codec: false, assume_vgz: false, raw_output: true };
    let mut conv = Converter::new();
    let r = conv.convert(input, Vec::new(), flags);
    assert_eq!(r, Err(VgmError::DataTooLarge { max_size: 0xFFC0 }));
}

#[test]
fn test_wrapped_output_layout() {
    let mut input = header_bytes(0, 0);
    input.extend_from_slice(&[0x50, 0x12, 0x66]);
    let flags = ConverterFlags { psg_codec: true, assume_vgz: false, raw_output: false };
    let mut conv = Converter::new();
    let out = conv.convert(input, Vec::new(), flags).unwrap();
    assert_eq!(out.len(), 256 + 0x10000 + 256);
    assert_eq!(&out[0..33], &b"SNES-SPC700 Sound File Data v0.30"[..]);
    assert_eq!(&out[33..37], &[26, 26, 26, 30]);
    // with no player binary the image sits at the top of the memory window
    assert_eq!(out[256 + 8], 0x52);
    // the control-register block disables echo-buffer writes
    assert_eq!(out[256 + 0x10000 + 0x6C], 0x20);
}

#[test]
fn test_gd3_strings_and_offset() {
    // trailing metadata: six strings, each one real byte + one ignored
    // byte per character; the pipeline keeps title, game, and author
    let mut input = header_bytes(0, 0);
    let mut gd3 = Vec::new();
    gd3.extend_from_slice(b"Gd3 ");
    gd3.extend_from_slice(&[0, 0, 0, 0]); // version
    gd3.extend_from_slice(&[0, 0, 0, 0]); // length
    for s in ["Ti", "", "Ga", "", "Sys", "", "Au"] {
        for ch in s.bytes() {
            gd3.push(ch);
            gd3.push(0);
        }
        gd3.push(0);
        gd3.push(0);
    }
    let gd3_offset = (input.len() + 3 - 0x14) as u32; // commands first
    input.extend_from_slice(&[0x50, 0x12, 0x66]);
    input[0x14..0x18].copy_from_slice(&gd3_offset.to_le_bytes());
    input.extend_from_slice(&gd3);
    let input_len = input.len();
    let flags = ConverterFlags { psg_codec: false, assume_vgz: false, raw_output: true };
    let mut conv = Converter::new();
    let out = conv.convert(input, Vec::new(), flags).unwrap();
    assert_eq!(conv.song_title, b"Ti".to_vec());
    assert_eq!(conv.game_title, b"Ga".to_vec());
    assert_eq!(conv.artist, b"Au".to_vec());
    // no bytes were dropped and none added: the offset stays put
    assert_eq!(out.len(), input_len);
    assert_eq!(le32(&out, 0x14), gd3_offset);
}

#[test]
fn test_header_parse_fields() {
    let mut input = header_bytes(0x120, 0x34);
    input[0x30..0x34].copy_from_slice(&0x44u32.to_le_bytes());
    let h = FileHeader::parse(&input).unwrap();
    assert_eq!(h.gd3_offset, 0x120);
    assert_eq!(h.loop_offset, 0x34);
    assert_eq!(h.vgm_data_offset, 0x44);
    assert_eq!(h.version, 0x100);
    assert!(FileHeader::parse(&vec![0u8; 0x37]).is_none());
}

#[test]
fn test_seek_pcm_retention_depends_on_codec() {
    // a nonzero seek: kept by the identity codec, dropped by the
    // dictionary codec
    let mut input = header_bytes(0, 0);
    input.extend_from_slice(&[0xE0, 0x01, 0x00, 0x00, 0x00, 0x66]);
    let null_flags = ConverterFlags { psg_codec: false, assume_vgz: false, raw_output: true };
    let mut c1 = Converter::new();
    let out1 = c1.convert(input.clone(), Vec::new(), null_flags).unwrap();
    assert_eq!(&out1[0x40..], &[0xE0, 0x01, 0x00, 0x00, 0x00, 0x66]);
    let mut c2 = Converter::new();
    let out2 = c2.convert(input, Vec::new(), psg_raw_flags()).unwrap();
    // body: no batch was ever opened, only the end marker itself
    assert_eq!(&out2[0x40 + 39..], &[0x66]);
}

#[test]
fn test_backward_merge_never_edits_header() {
    // the header's last byte happens to look like a short-wait command;
    // a leading short wait in the stream must not be merged into it
    let mut input = header_bytes(0, 0);
    input[0x3F] = 0x7F;
    input.extend_from_slice(&[0x83, 0x66]);
    let flags = ConverterFlags { psg_codec: false, assume_vgz: false, raw_output: true };
    let mut conv = Converter::new();
    let out = conv.convert(input, Vec::new(), flags).unwrap();
    assert_eq!(out[0x3F], 0x7F);
    assert_eq!(&out[0x40..], &[0x83, 0x66]);
}

#[test]
fn test_backward_merge_into_emitted_wait() {
    // an emitted short wait directly before merges in place: wait 1+1 and
    // wait 3 become a single wait 5 command
    let mut input = header_bytes(0, 0);
    input.extend_from_slice(&[0x71, 0x83, 0x66]);
    let flags = ConverterFlags { psg_codec: false, assume_vgz: false, raw_output: true };
    let mut conv = Converter::new();
    let out = conv.convert(input, Vec::new(), flags).unwrap();
    assert_eq!(&out[0x40..], &[0x85, 0x66]);
}

#[test]
fn test_read_gd3_string_layout() {
    let mut bs = ByteStream::new(vec![0x41, 0, 0x42, 0, 0, 0, 0x43]);
    let mut out = Vec::new();
    vgm2spc::gd3::read_gd3_string(&mut bs, &mut out);
    assert_eq!(out, vec![0x41, 0x42]);
    assert_eq!(bs.get_pos(), 6);
}
