use skynet_client::wire::{i16_at, u32_at, u64_at};

#[test]
fn u32_at_reads_least_significant_byte_first() {
    let buffer = [0xAAu8, 0x78, 0x56, 0x34, 0x12, 0xBB];
    assert_eq!(u32_at(&buffer, 1), Some(0x1234_5678));
    assert_eq!(u32_at(&buffer, 2), Some(0xBB12_3456));
    assert_eq!(u32_at(&buffer, 3), None);
}

#[test]
fn u64_at_reads_eight_bytes() {
    let buffer = [1u8, 2, 3, 4, 5, 6, 7, 8, 9];
    assert_eq!(u64_at(&buffer, 0), Some(0x0807_0605_0403_0201));
    assert_eq!(u64_at(&buffer, 1), Some(0x0908_0706_0504_0302));
    assert_eq!(u64_at(&buffer, 2), None);
    assert_eq!(u64_at(&buffer, usize::MAX), None);
}

#[test]
fn i16_at_reads_twos_complement() {
    let buffer = [0x00u8, 0x01, 0xFF, 0xFF, 0x00, 0x80];
    assert_eq!(i16_at(&buffer, 0), Some(256));
    assert_eq!(i16_at(&buffer, 2), Some(-1));
    assert_eq!(i16_at(&buffer, 4), Some(i16::MIN));
    assert_eq!(i16_at(&buffer, 5), None);
}
