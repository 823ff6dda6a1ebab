use vgm2spc::ByteStream;

#[test]
fn test_create() {
    let bs = ByteStream::new(vec![1, 2, 3]);
    assert_eq!(bs.available(), 3);
    assert_eq!(bs.len(), 3);
}

#[test]
fn test_read() {
    let mut bs = ByteStream::new(vec![1, 2, 3]);
    assert_eq!(bs.read(), 1);
    assert_eq!(bs.available(), 2);
    assert_eq!(bs.len(), 3);
}

#[test]
fn test_read_n() {
    let mut bs = ByteStream::new(vec![1, 2, 3]);
    assert_eq!(bs.read_n(2), vec![1, 2]);
    assert_eq!(bs.available(), 1);
}

#[test]
fn test_skip() {
    let mut bs = ByteStream::new(vec![1, 2, 3]);
    bs.skip(2);
    assert_eq!(bs.read(), 3);
    assert_eq!(bs.available(), 0);
}

#[test]
fn test_reset() {
    let mut bs = ByteStream::new(vec![1, 2, 3]);
    assert_eq!(bs.read(), 1);
    assert_eq!(bs.available(), 2);
    bs.reset();
    assert_eq!(bs.available(), 3);
    assert_eq!(bs.read(), 1);
}

#[test]
fn test_write() {
    let mut bs = ByteStream::new(vec![1, 2, 3]);
    bs.write(4);
    assert_eq!(bs.available(), 4);
    assert_eq!(bs.get_pos(), 0);
}

#[test]
fn test_peek_and_patch_u32() {
    let mut bs = ByteStream::new(vec![0, 0, 0, 0, 0xAA]);
    bs.replace_u32_at(0, 0x12345678);
    assert_eq!(bs.peek_u32_at(0), 0x12345678);
    assert_eq!(bs.read(), 0x78);
    assert_eq!(bs.read(), 0x56);
    assert_eq!(bs.read(), 0x34);
    assert_eq!(bs.read(), 0x12);
    assert_eq!(bs.peek(), 0xAA);
}

#[test]
fn test_last_and_replace() {
    let mut bs = ByteStream::new(vec![0x71, 0x72]);
    assert_eq!(bs.last(), Some(&0x72));
    bs.replace_at(1, 0x86);
    assert_eq!(bs.last(), Some(&0x86));
    let empty = ByteStream::new(Vec::new());
    assert_eq!(empty.last(), None);
}

#[test]
fn test_borrow_n_advances() {
    let mut bs = ByteStream::new(vec![5, 6, 7, 8]);
    assert_eq!(bs.borrow_n(2), &[5, 6]);
    assert_eq!(bs.get_pos(), 2);
    assert_eq!(bs.read_available(), vec![7, 8]);
}

#[test]
fn test_write_n_appends() {
    let mut bs = ByteStream::new(vec![1]);
    bs.write_n(&[2, 3]);
    assert_eq!(bs.read_available(), vec![1, 2, 3]);
}
