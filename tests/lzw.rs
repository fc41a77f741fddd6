use jif::lzw::decode_lzw;
use jif::DecodeError;

/// Packs codes least significant bit first, each at its own width.
fn pack(codes: &[(u32, u32)]) -> Vec<u8> {
    let mut out = vec![];
    let mut acc: u64 = 0;
    let mut n = 0;
    for &(code, width) in codes {
        acc |= (code as u64) << n;
        n += width;
        while n >= 8 {
            out.push((acc & 0xFF) as u8);
            acc >>= 8;
            n -= 8;
        }
    }
    if n > 0 {
        out.push(acc as u8);
    }
    out
}

#[test]
fn single_index() {
    assert_eq!(decode_lzw(2, &vec![vec![0x44, 0x01]]), Ok(vec![0]));
}

#[test]
fn clear_code_only_gives_no_indices() {
    assert_eq!(decode_lzw(2, &vec![vec![0x2C]]), Ok(vec![]));
}

#[test]
fn self_referential_code() {
    // clear, 0, 6 (the code being defined), end
    assert_eq!(decode_lzw(2, &vec![vec![0x84, 0x0B]]), Ok(vec![0, 0, 0]));
}

#[test]
fn repeated_self_referential_codes() {
    // clear, 1, 0, 6, 8 (the code being defined), end
    assert_eq!(decode_lzw(2, &vec![vec![0x0C, 0x8C, 0x05]]), Ok(vec![1, 0, 1, 0, 1, 0, 1]));
}

#[test]
fn code_width_grows_at_table_boundary() {
    // clear, 0, 1, 2 at three bits; the table then holds eight entries, so 3
    // and the end code are read at four bits.
    assert_eq!(decode_lzw(2, &vec![vec![0x44, 0x34, 0x05]]), Ok(vec![0, 1, 2, 3]));
}

#[test]
fn data_split_over_sub_blocks() {
    assert_eq!(decode_lzw(2, &vec![vec![0x44], vec![0x34], vec![0x05]]), Ok(vec![0, 1, 2, 3]));
}

#[test]
fn missing_end_code_is_tolerated() {
    assert_eq!(decode_lzw(2, &vec![pack(&[(4, 3), (0, 3)])]), Ok(vec![0]));
}

#[test]
fn code_before_clear_is_rejected() {
    assert_eq!(decode_lzw(2, &vec![pack(&[(0, 3), (5, 3)])]), Err(DecodeError::InvalidLzwCode));
}

#[test]
fn first_code_after_clear_must_be_a_color() {
    assert_eq!(decode_lzw(2, &vec![pack(&[(4, 3), (6, 3)])]), Err(DecodeError::InvalidLzwCode));
}

#[test]
fn code_past_table_is_rejected() {
    assert_eq!(decode_lzw(2, &vec![pack(&[(4, 3), (0, 3), (7, 3)])]), Err(DecodeError::InvalidLzwCode));
}

#[test]
fn clear_code_resets_table_and_width() {
    // clear, 0, 1, 2 (width grows to four), clear, 3 at three bits, end
    let data = pack(&[(4, 3), (0, 3), (1, 3), (2, 3), (4, 4), (3, 3), (5, 3)]);
    assert_eq!(decode_lzw(2, &vec![data]), Ok(vec![0, 1, 2, 3]));
}

#[test]
fn table_stops_growing_at_4096_entries() {
    // After the clear code and a first 0, every further 0 adds an entry until
    // the table holds 4096; the width then stays at twelve bits.
    let mut codes = vec![(4u32, 3u32), (0, 3)];
    let mut table = 6u32;
    let mut width = 3u32;
    for _ in 0..5000 {
        codes.push((0, width));
        if table < 4096 {
            table += 1;
            if table == 1 << width && width < 12 {
                width += 1;
            }
        }
    }
    codes.push((5, width));
    assert_eq!(width, 12);
    let out = decode_lzw(2, &vec![pack(&codes)]).unwrap();
    assert_eq!(out.len(), 5001);
    assert!(out.iter().all(|&i| i == 0));
}

#[test]
fn min_code_size_above_eleven_has_no_clear_code() {
    assert_eq!(decode_lzw(12, &vec![vec![0x00, 0x10]]), Err(DecodeError::InvalidLzwCode));
    assert_eq!(decode_lzw(12, &vec![vec![0x00]]), Ok(vec![]));
}
