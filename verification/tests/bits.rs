use icmp_encoding::bits::BitCursor;
use icmp_encoding::Error;

#[test]
fn reads_the_halves_of_a_byte() {
    let bytes = [0x45u8, 0xa7];
    let mut cursor = BitCursor::new(&bytes);
    assert_eq!(cursor.read_bits(4), Ok(4));
    assert_eq!(cursor.read_bits(4), Ok(5));
    assert_eq!(cursor.read_bits(4), Ok(0xa));
    assert_eq!(cursor.read_bits(4), Ok(7));
    assert_eq!(cursor.read_bits(1), Err(Error::Truncated));
}

#[test]
fn reads_most_significant_bit_first() {
    let bytes = [0b1011_0001u8];
    let mut cursor = BitCursor::new(&bytes);
    assert_eq!(cursor.read_bits(1), Ok(1));
    assert_eq!(cursor.read_bits(1), Ok(0));
    assert_eq!(cursor.read_bits(2), Ok(0b11));
    assert_eq!(cursor.read_bits(3), Ok(0));
    assert_eq!(cursor.read_bits(1), Ok(1));
}

#[test]
fn reads_across_bytes() {
    let bytes = [0x12u8, 0x34, 0x56, 0x78, 0x9a];
    let mut cursor = BitCursor::new(&bytes);
    assert_eq!(cursor.read_bits(16), Ok(0x1234));
    assert_eq!(cursor.read_bits(4), Ok(5));
    // 0x6789a without its last four bits.
    assert_eq!(cursor.read_bits(16), Ok(0x6789));
    assert_eq!(cursor.read_bits(4), Ok(0xa));
}

#[test]
fn reads_thirty_two_bits() {
    let bytes = [0xffu8, 0xff, 0xff, 0xff, 0x80];
    let mut cursor = BitCursor::new(&bytes);
    assert_eq!(cursor.read_bits(32), Ok(0xffff_ffff));

    let mut shifted = BitCursor::new(&bytes);
    assert_eq!(shifted.read_bits(1), Ok(1));
    assert_eq!(shifted.read_bits(32), Ok(0xffff_ffff));
    assert_eq!(shifted.read_bits(7), Ok(0));
}

#[test]
fn reading_no_bits_gives_zero() {
    let bytes = [0xffu8];
    let mut cursor = BitCursor::new(&bytes);
    assert_eq!(cursor.read_bits(0), Ok(0));
    assert_eq!(cursor.read_bits(8), Ok(0xff));
    assert_eq!(cursor.read_bits(0), Ok(0));

    let mut empty = BitCursor::new(&[]);
    assert_eq!(empty.read_bits(0), Ok(0));
    assert_eq!(empty.skip_bits(0), Ok(()));
    assert_eq!(empty.read_bits(1), Err(Error::Truncated));
}

#[test]
fn a_failed_read_does_not_move() {
    let bytes = [0xc3u8, 0x5a];
    let mut cursor = BitCursor::new(&bytes);
    assert_eq!(cursor.read_bits(6), Ok(0b110000));
    assert_eq!(cursor.read_bits(11), Err(Error::Truncated));
    assert_eq!(cursor.skip_bits(11), Err(Error::Truncated));
    assert_eq!(cursor.read_bits(10), Ok(0b11_0101_1010));
}

#[test]
fn skips_bits() {
    let bytes = [0x01u8, 0x02, 0x03, 0xf4];
    let mut cursor = BitCursor::new(&bytes);
    assert_eq!(cursor.skip_bits(24), Ok(()));
    assert_eq!(cursor.skip_bits(3), Ok(()));
    assert_eq!(cursor.read_bits(3), Ok(0b101));
    assert_eq!(cursor.skip_bits(3), Err(Error::Truncated));
    assert_eq!(cursor.skip_bits(usize::MAX), Err(Error::Truncated));
    assert_eq!(cursor.skip_bits(2), Ok(()));
    assert_eq!(cursor.skip_bits(1), Err(Error::Truncated));
}

#[test]
fn remaining_starts_at_the_next_byte_boundary() {
    let bytes = [1u8, 2, 3, 4];
    let mut cursor = BitCursor::new(&bytes);
    assert_eq!(cursor.remaining(), &bytes[..]);
    assert_eq!(cursor.skip_bits(8), Ok(()));
    assert_eq!(cursor.remaining(), &bytes[1..]);
    assert_eq!(cursor.skip_bits(1), Ok(()));
    assert_eq!(cursor.remaining(), &bytes[2..]);
    assert_eq!(cursor.skip_bits(7), Ok(()));
    assert_eq!(cursor.remaining(), &bytes[2..]);
    assert_eq!(cursor.skip_bits(16), Ok(()));
    assert!(cursor.remaining().is_empty());
}
