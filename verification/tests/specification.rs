use vgm2spc::specification::num_argument_bytes;

#[test]
fn test_argument_length_table() {
    assert_eq!(num_argument_bytes(0x4F), 1);
    assert_eq!(num_argument_bytes(0x50), 1);
    assert_eq!(num_argument_bytes(0x51), 2);
    assert_eq!(num_argument_bytes(0x52), 2);
    assert_eq!(num_argument_bytes(0x53), 2);
    assert_eq!(num_argument_bytes(0x61), 2);
    assert_eq!(num_argument_bytes(0xE0), 4);
    assert_eq!(num_argument_bytes(0x54), 0);
    assert_eq!(num_argument_bytes(0x62), 0);
    assert_eq!(num_argument_bytes(0x66), 0);
    assert_eq!(num_argument_bytes(0x70), 0);
}
