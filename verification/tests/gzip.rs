use std::io::Write;
use vgm2spc::VgmError;
use vgm2spc::gzip::decode_input;

#[test]
fn test_plain_stream_passes_through() {
    let data = vec![0x56, 0x67, 0x6D, 0x20, 1, 2, 3];
    let out = decode_input(data.clone(), false).unwrap();
    assert_eq!(out, data);
}

#[test]
fn test_compressed_stream_is_inflated() {
    let mut payload = vec![0x56, 0x67, 0x6D, 0x20];
    payload.extend_from_slice(&[9, 8, 7, 6, 5]);
    let mut encoder = flate2::write::GzEncoder::new(Vec::new(), flate2::Compression::default());
    encoder.write_all(&payload).unwrap();
    let compressed = encoder.finish().unwrap();
    // auto-detected: the container lacks the plain magic
    let out = decode_input(compressed.clone(), false).unwrap();
    assert_eq!(out, payload);
    // forced: decompressed even though the inner bytes carry the magic
    let out2 = decode_input(compressed, true).unwrap();
    assert_eq!(out2, payload);
}

#[test]
fn test_garbage_is_rejected() {
    let r = decode_input(vec![1, 2, 3, 4, 5], false);
    assert_eq!(r, Err(VgmError::BadCompression));
}

#[test]
fn test_forced_decompression_of_plain_stream_fails() {
    let data = vec![0x56, 0x67, 0x6D, 0x20, 1, 2, 3];
    let r = decode_input(data, true);
    assert_eq!(r, Err(VgmError::BadCompression));
}
