use jif::{BitStream, DecodeError};

#[test]
fn test_read_bit() -> Result<(), DecodeError> {
    let data = [
        0x8C, 0x2D, 0x99, 0x87, 0x2A, 0x1C, 0xDC, 0x33, 0xA0, 0x02, 0x75, 0xEC, 0x95, 0xFA,
        0xA8, 0xDE, 0x60, 0x8C, 0x04, 0x91, 0x4C, 0x01, 0x00,
    ];
    let mut bitstream = BitStream::new(&vec![data.to_vec()]);

    assert_eq!(bitstream.read_bit(), 0);
    assert_eq!(bitstream.read_bit(), 0);
    assert_eq!(bitstream.read_bit(), 1);
    assert_eq!(bitstream.read_bit(), 1);
    assert_eq!(bitstream.read_bit(), 0);
    assert_eq!(bitstream.read_bit(), 0);

    Ok(())
}

#[test]
fn test_read_bytes() -> Result<(), DecodeError> {
    let data = [0x8c];

    let mut bitstream = BitStream::new(&vec![data.to_vec()]);

    assert_eq!(bitstream.next(3)?, 4);
    assert_eq!(bitstream.next(3)?, 1);

    Ok(())
}

#[test]
fn test_read_dance_header() -> Result<(), DecodeError> {
    let data = [0, 157];

    let mut bitstream = BitStream::new(&vec![data.to_vec()]);

    assert_eq!(bitstream.read_bit(), 0);
    assert_eq!(bitstream.read_bit(), 0);
    assert_eq!(bitstream.read_bit(), 0);
    assert_eq!(bitstream.read_bit(), 0);
    assert_eq!(bitstream.read_bit(), 0);
    assert_eq!(bitstream.read_bit(), 0);
    assert_eq!(bitstream.read_bit(), 0);
    assert_eq!(bitstream.read_bit(), 0);
    assert_eq!(bitstream.read_bit(), 1);

    bitstream = BitStream::new(&vec![data.to_vec()]);
    assert_eq!(bitstream.next(9)?, 256);

    Ok(())
}

#[test]
fn codes_cross_sub_block_boundaries() {
    // 0x80 then 0x01: bit 7 of the first block and bit 0 of the second are set.
    let mut bitstream = BitStream::new(&vec![vec![0x80], vec![0x01]]);
    assert_eq!(bitstream.next(7).unwrap(), 0);
    assert_eq!(bitstream.next(2).unwrap(), 0b11);
}

#[test]
fn eof_counts_remaining_bits() {
    let mut bitstream = BitStream::new(&vec![vec![0xFF]]);
    assert!(!bitstream.eof(8));
    assert!(bitstream.eof(9));
    assert_eq!(bitstream.next(5).unwrap(), 0b11111);
    assert!(!bitstream.eof(3));
    assert!(bitstream.eof(4));
}

#[test]
fn next_past_the_end_fails_and_keeps_position() {
    let mut bitstream = BitStream::new(&vec![vec![0xA5]]);
    assert_eq!(bitstream.next(9), Err(DecodeError::UnexpectedEof));
    assert_eq!(bitstream.next(8).unwrap(), 0xA5);
    assert_eq!(bitstream.next(1), Err(DecodeError::UnexpectedEof));
}

#[test]
fn code_width_is_clamped_to_twelve_bits() {
    let mut bitstream = BitStream::new(&vec![vec![0xFF, 0xFF, 0x00]]);
    assert_eq!(bitstream.next(16).unwrap(), 0xFFF);
    assert_eq!(bitstream.next(4).unwrap(), 0xF);
}

#[test]
fn empty_data_is_at_end() {
    let bitstream = BitStream::new(&vec![]);
    assert!(!bitstream.eof(0));
    assert!(bitstream.eof(1));
}
