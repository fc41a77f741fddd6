use jif::gif_data_stream::{Block, GifDataStream};
use jif::grammar::Frame;
use jif::{DecodeError, Decoder};

const RED: u32 = 0x00FF0000;
const GREEN: u32 = 0x0000FF00;
const BLUE: u32 = 0x000000FF;
const WHITE: u32 = 0x00FFFFFF;

/// Red, green.
const TWO_COLORS: [u8; 6] = [0xFF, 0x00, 0x00, 0x00, 0xFF, 0x00];
/// Red, green, blue, white.
const FOUR_COLORS: [u8; 12] = [0xFF, 0x00, 0x00, 0x00, 0xFF, 0x00, 0x00, 0x00, 0xFF, 0xFF, 0xFF, 0xFF];
/// White, red, blue, black.
const BACKGROUND_FIRST: [u8; 12] = [0xFF, 0xFF, 0xFF, 0xFF, 0x00, 0x00, 0x00, 0x00, 0xFF, 0x00, 0x00, 0x00];

/// LZW data, minimum code size 2, for the index streams named.
const ONE_0: [u8; 2] = [0x44, 0x01];
const ONE_1: [u8; 2] = [0x4C, 0x01];
const ONE_2: [u8; 2] = [0x54, 0x01];
const FOUR_0: [u8; 2] = [0x84, 0x51];
const NINE_1: [u8; 3] = [0x8C, 0x7F, 0x05];
const PATTERN_1221: [u8; 3] = [0x8C, 0x14, 0x05];
const ALTERNATING_1010101: [u8; 3] = [0x0C, 0x8C, 0x05];
const NOTHING: [u8; 1] = [0x2C];

fn header(width: u16, height: u16, palette: &[u8], background: u8) -> Vec<u8> {
    let mut out = b"GIF89a".to_vec();
    out.extend_from_slice(&width.to_le_bytes());
    out.extend_from_slice(&height.to_le_bytes());
    let packed = match palette.len() {
        0 => 0,
        6 => 0x80,
        12 => 0x81,
        _ => panic!("unsupported palette size"),
    };
    out.extend_from_slice(&[packed, background, 0]);
    out.extend_from_slice(palette);
    out
}

fn control(packed: u8, delay: u16, transparent: u8) -> Vec<u8> {
    let d = delay.to_le_bytes();
    vec![0x21, 0xF9, 0x04, packed, d[0], d[1], transparent, 0x00]
}

fn image(left: u16, top: u16, width: u16, height: u16, data: &[u8]) -> Vec<u8> {
    let mut out = vec![0x2C];
    for v in [left, top, width, height] {
        out.extend_from_slice(&v.to_le_bytes());
    }
    out.push(0);
    out.push(2);
    out.push(data.len() as u8);
    out.extend_from_slice(data);
    out.push(0);
    out
}

fn netscape_loop() -> Vec<u8> {
    let mut out = vec![0x21, 0xFF, 0x0B];
    out.extend_from_slice(b"NETSCAPE2.0");
    out.extend_from_slice(&[0x03, 0x01, 0x00, 0x00, 0x00]);
    out
}

fn stream(parts: &[Vec<u8>]) -> Vec<u8> {
    let mut out = vec![];
    for p in parts {
        out.extend_from_slice(p);
    }
    out.push(0x3B);
    out
}

fn parse(bytes: Vec<u8>) -> Result<GifDataStream, DecodeError> {
    Decoder::new(bytes).parse()
}

fn frames(bytes: Vec<u8>) -> Result<Vec<Frame>, DecodeError> {
    parse(bytes)?.decompress()
}

fn pixels(frames: &[Frame]) -> Vec<Vec<u32>> {
    frames.iter().map(|f| f.pixels.clone()).collect()
}

#[test]
fn minimal_one_by_one() {
    let bytes = stream(&[header(1, 1, &TWO_COLORS, 0), image(0, 0, 1, 1, &ONE_0)]);
    let gif = parse(bytes).unwrap();
    assert_eq!(gif.version, "89a");
    assert_eq!(gif.global_color_table, Some(TWO_COLORS.to_vec()));
    let fs = gif.decompress().unwrap();
    assert_eq!(fs.len(), 1);
    assert_eq!(fs[0].pixels, vec![0x00FF0000]);
    assert_eq!(fs[0].delay_time, None);
}

#[test]
fn single_color_image_on_one_pixel_canvas() {
    let bytes = stream(&[header(1, 1, &TWO_COLORS, 0), image(0, 0, 1, 1, &ONE_1)]);
    let fs = frames(bytes).unwrap();
    assert_eq!(pixels(&fs), vec![vec![GREEN]]);
}

#[test]
fn two_frame_animation() {
    let bytes = stream(&[
        header(2, 2, &TWO_COLORS, 0),
        control(0x00, 10, 0),
        image(0, 0, 2, 2, &FOUR_0),
        control(0x04, 10, 0),
        image(0, 0, 1, 1, &ONE_1),
    ]);
    let fs = frames(bytes).unwrap();
    assert_eq!(pixels(&fs), vec![vec![RED, RED, RED, RED], vec![GREEN, RED, RED, RED]]);
    assert_eq!(fs[0].delay_time, Some(10));
    assert_eq!(fs[1].delay_time, Some(10));
}

#[test]
fn transparent_index_leaves_canvas() {
    let bytes = stream(&[
        header(2, 2, &TWO_COLORS, 0),
        control(0x00, 10, 0),
        image(0, 0, 2, 2, &FOUR_0),
        control(0x05, 10, 0),
        image(0, 0, 1, 1, &ONE_0),
    ]);
    let fs = frames(bytes).unwrap();
    assert_eq!(pixels(&fs), vec![vec![RED, RED, RED, RED], vec![RED, RED, RED, RED]]);
}

#[test]
fn transparent_pixels_show_what_is_below() {
    let bytes = stream(&[
        header(2, 2, &FOUR_COLORS, 0),
        image(0, 0, 2, 2, &FOUR_0),
        control(0x01, 0, 2),
        image(0, 0, 2, 2, &PATTERN_1221),
    ]);
    let fs = frames(bytes).unwrap();
    assert_eq!(fs[1].pixels, vec![GREEN, RED, RED, GREEN]);
}

#[test]
fn restore_to_background_clears_rectangle() {
    let bytes = stream(&[
        header(3, 3, &BACKGROUND_FIRST, 0),
        control(0x08, 0, 0),
        image(0, 0, 3, 3, &NINE_1),
        image(1, 1, 1, 1, &ONE_2),
        image(0, 0, 0, 0, &NOTHING),
    ]);
    let fs = frames(bytes).unwrap();
    let after = vec![WHITE, WHITE, WHITE, WHITE, BLUE, WHITE, WHITE, WHITE, WHITE];
    assert_eq!(pixels(&fs), vec![vec![RED; 9], after.clone(), after]);
}

#[test]
fn restore_to_background_only_touches_the_image() {
    let bytes = stream(&[
        header(2, 2, &FOUR_COLORS, 2),
        image(0, 0, 2, 2, &FOUR_0),
        control(0x08, 0, 0),
        image(1, 1, 1, 1, &ONE_1),
        image(0, 0, 0, 0, &NOTHING),
    ]);
    let fs = frames(bytes).unwrap();
    assert_eq!(
        pixels(&fs),
        vec![vec![RED; 4], vec![RED, RED, RED, GREEN], vec![RED, RED, RED, BLUE]]
    );
}

#[test]
fn restore_to_previous_chain_returns_to_first_frame() {
    let bytes = stream(&[
        header(2, 2, &FOUR_COLORS, 3),
        image(0, 0, 2, 2, &FOUR_0),
        control(0x0C, 0, 0),
        image(0, 0, 1, 1, &ONE_1),
        control(0x0C, 0, 0),
        image(1, 0, 1, 1, &ONE_2),
        image(0, 0, 0, 0, &NOTHING),
    ]);
    let fs = frames(bytes).unwrap();
    assert_eq!(
        pixels(&fs),
        vec![
            vec![RED; 4],
            vec![GREEN, RED, RED, RED],
            vec![RED, BLUE, RED, RED],
            vec![RED; 4],
        ]
    );
}

#[test]
fn application_extension_does_not_unbind_control() {
    let bytes = stream(&[
        header(1, 1, &TWO_COLORS, 0),
        control(0x00, 7, 0),
        netscape_loop(),
        image(0, 0, 1, 1, &ONE_1),
    ]);
    let gif = parse(bytes).unwrap();
    match &gif.blocks[1] {
        Block::ApplicationExtension(a) => {
            assert_eq!(a.identifier, "NETSCAPE");
            assert_eq!(a.authentication_code, *b"2.0");
            assert_eq!(a.data, vec![0x01, 0x00, 0x00]);
        },
        other => panic!("expected an application extension, got {:?}", other),
    }
    let fs = gif.decompress().unwrap();
    assert_eq!(fs.len(), 1);
    assert_eq!(fs[0].delay_time, Some(7));
    assert_eq!(fs[0].pixels, vec![GREEN]);
}

#[test]
fn self_referential_codes_in_an_image() {
    let bytes = stream(&[header(7, 1, &TWO_COLORS, 0), image(0, 0, 7, 1, &ALTERNATING_1010101)]);
    let fs = frames(bytes).unwrap();
    assert_eq!(fs[0].pixels, vec![GREEN, RED, GREEN, RED, GREEN, RED, GREEN]);
}

#[test]
fn clear_code_only_image_is_truncated() {
    let bytes = stream(&[header(1, 1, &TWO_COLORS, 0), image(0, 0, 1, 1, &NOTHING)]);
    assert_eq!(frames(bytes).err(), Some(DecodeError::TruncatedImage));
}

#[test]
fn empty_image_shows_the_canvas() {
    let bytes = stream(&[header(1, 1, &TWO_COLORS, 1), image(0, 0, 0, 0, &NOTHING)]);
    assert_eq!(pixels(&frames(bytes).unwrap()), vec![vec![GREEN]]);
}

#[test]
fn image_partly_off_canvas_is_clipped() {
    let bytes = stream(&[header(2, 1, &TWO_COLORS, 0), image(1, 0, 2, 2, &FOUR_0)]);
    let bytes2 = stream(&[header(2, 2, &TWO_COLORS, 1), image(1, 1, 2, 2, &FOUR_0)]);
    assert_eq!(pixels(&frames(bytes).unwrap()), vec![vec![RED, RED]]);
    assert_eq!(pixels(&frames(bytes2).unwrap()), vec![vec![GREEN, GREEN, GREEN, RED]]);
}

#[test]
fn later_graphic_control_wins() {
    let bytes = stream(&[
        header(1, 1, &TWO_COLORS, 0),
        control(0x00, 3, 0),
        control(0x00, 9, 0),
        image(0, 0, 1, 1, &ONE_0),
    ]);
    assert_eq!(frames(bytes).unwrap()[0].delay_time, Some(9));
}

#[test]
fn comment_and_plain_text_are_parsed() {
    let mut comment = vec![0x21, 0xFE, 0x02, b'h', b'i', 0x01, b'!', 0x00];
    let mut plain = vec![0x21, 0x01, 0x0C, 1, 0, 2, 0, 3, 0, 4, 0, 5, 6, 7, 8];
    plain.extend_from_slice(&[0x02, b'o', b'k', 0x00]);
    let bytes = stream(&[
        header(1, 1, &TWO_COLORS, 0),
        std::mem::take(&mut comment),
        control(0x00, 4, 0),
        plain,
        image(0, 0, 1, 1, &ONE_1),
    ]);
    let gif = parse(bytes).unwrap();
    assert_eq!(gif.blocks.len(), 4);
    match &gif.blocks[0] {
        Block::CommentExtension(c) => assert_eq!(c.data, b"hi!".to_vec()),
        other => panic!("expected a comment, got {:?}", other),
    }
    match &gif.blocks[2] {
        Block::PlainTextExtension(p) => {
            assert_eq!(p.text_grid_left_position, 1);
            assert_eq!(p.text_grid_height, 4);
            assert_eq!(p.character_cell_width, 5);
            assert_eq!(p.text_background_color_index, 8);
            assert_eq!(p.plain_text_data, b"ok".to_vec());
        },
        other => panic!("expected plain text, got {:?}", other),
    }
    // the plain text consumes the graphic control
    assert_eq!(gif.decompress().unwrap()[0].delay_time, None);
}

#[test]
fn local_palette_takes_precedence() {
    let mut img = vec![0x2C, 0, 0, 0, 0, 1, 0, 1, 0, 0x80];
    img.extend_from_slice(&[0x00, 0x00, 0xFF, 0x00, 0x00, 0x00]);
    img.extend_from_slice(&[0x02, 0x02, 0x44, 0x01, 0x00]);
    let fs = frames(stream(&[header(1, 1, &TWO_COLORS, 0), img])).unwrap();
    assert_eq!(fs[0].pixels, vec![BLUE]);
}

#[test]
fn decoding_twice_gives_the_same_frames() {
    let bytes = stream(&[
        header(2, 2, &TWO_COLORS, 0),
        control(0x00, 10, 0),
        image(0, 0, 2, 2, &FOUR_0),
        control(0x04, 10, 0),
        image(0, 0, 1, 1, &ONE_1),
    ]);
    let a = frames(bytes.clone()).unwrap();
    let b = frames(bytes).unwrap();
    assert_eq!(pixels(&a), pixels(&b));
    assert_eq!(
        a.iter().map(|f| f.delay_time).collect::<Vec<_>>(),
        b.iter().map(|f| f.delay_time).collect::<Vec<_>>()
    );
}

#[test]
fn frames_cover_the_canvas_without_alpha() {
    let bytes = stream(&[
        header(3, 3, &BACKGROUND_FIRST, 0),
        image(1, 1, 1, 1, &ONE_2),
        image(0, 0, 3, 3, &NINE_1),
    ]);
    for f in frames(bytes).unwrap() {
        assert_eq!(f.pixels.len(), 9);
        assert!(f.pixels.iter().all(|p| p & 0xFF00_0000 == 0));
    }
}

#[test]
fn global_palette_has_the_announced_size() {
    let gif = parse(stream(&[header(1, 1, &FOUR_COLORS, 0)])).unwrap();
    assert_eq!(gif.global_color_table.map(|t| t.len()), Some(12));
    assert_eq!(gif.logical_screen_descriptor.global_color_table_size(), 12);
}

#[test]
fn stream_without_trailer_is_accepted() {
    let mut bytes = stream(&[header(1, 1, &TWO_COLORS, 0), image(0, 0, 1, 1, &ONE_0)]);
    bytes.pop();
    assert_eq!(frames(bytes).unwrap().len(), 1);
}

#[test]
fn decode_reports_success() {
    let bytes = stream(&[header(1, 1, &TWO_COLORS, 0), image(0, 0, 1, 1, &ONE_0)]);
    assert_eq!(Decoder::new(bytes).decode(), Ok(()));
    let bad = stream(&[header(1, 1, &TWO_COLORS, 0), image(0, 0, 1, 1, &NOTHING)]);
    assert_eq!(Decoder::new(bad).decode(), Err(DecodeError::TruncatedImage));
}

#[test]
fn bad_signature_is_an_unexpected_literal() {
    assert_eq!(
        parse(b"GIT89a".to_vec()).err(),
        Some(DecodeError::UnexpectedLiteral { expected: b"GIF".to_vec(), found: b"GIT".to_vec(), at: 0 })
    );
}

#[test]
fn short_stream_is_an_unexpected_eof() {
    assert_eq!(parse(b"GIF89a\x01\x00".to_vec()).err(), Some(DecodeError::UnexpectedEof));
    let mut cut = header(1, 1, &TWO_COLORS, 0);
    cut.pop();
    assert_eq!(parse(cut).err(), Some(DecodeError::UnexpectedEof));
}

#[test]
fn unknown_block_tag_is_rejected() {
    let bytes = stream(&[header(1, 1, &TWO_COLORS, 0), vec![0x99]]);
    assert_eq!(parse(bytes).err(), Some(DecodeError::UnknownBlockTag(0x99)));
}

#[test]
fn unknown_extension_label_is_rejected() {
    let bytes = stream(&[header(1, 1, &TWO_COLORS, 0), vec![0x21, 0x42, 0x00]]);
    assert_eq!(parse(bytes).err(), Some(DecodeError::UnknownExtensionLabel(0x42)));
}

#[test]
fn wrong_block_size_is_an_unexpected_literal() {
    let bytes = stream(&[header(1, 1, &TWO_COLORS, 0), vec![0x21, 0xF9, 0x05, 0, 0, 0, 0, 0]]);
    assert_eq!(
        parse(bytes).err(),
        Some(DecodeError::UnexpectedLiteral { expected: vec![0x04], found: vec![0x05], at: 21 })
    );
}

#[test]
fn version_must_be_text() {
    assert_eq!(parse(b"GIF\xFF9a\x01\x00\x01\x00\x00\x00\x00;".to_vec()).err(), Some(DecodeError::InvalidText));
}

#[test]
fn empty_canvas_is_rejected() {
    assert_eq!(parse(stream(&[header(0, 1, &TWO_COLORS, 0)])).err(), Some(DecodeError::EmptyCanvas));
    assert_eq!(parse(stream(&[header(1, 0, &TWO_COLORS, 0)])).err(), Some(DecodeError::EmptyCanvas));
}

#[test]
fn oversized_canvas_is_rejected() {
    assert_eq!(parse(stream(&[header(16385, 1, &TWO_COLORS, 0)])).err(), Some(DecodeError::OversizedCanvas));
    assert!(parse(stream(&[header(16384, 1, &TWO_COLORS, 0)])).is_ok());
}

#[test]
fn image_without_palette_is_rejected() {
    let bytes = stream(&[header(1, 1, &[], 0), image(0, 0, 1, 1, &ONE_0)]);
    assert_eq!(frames(bytes).err(), Some(DecodeError::InvalidPalette));
}

#[test]
fn background_index_outside_palette_is_rejected() {
    let bytes = stream(&[header(1, 1, &TWO_COLORS, 2)]);
    assert_eq!(frames(bytes).err(), Some(DecodeError::InvalidPalette));
}

#[test]
fn pixel_index_outside_palette_is_rejected() {
    let bytes = stream(&[header(1, 1, &TWO_COLORS, 0), image(0, 0, 1, 1, &ONE_2)]);
    assert_eq!(frames(bytes).err(), Some(DecodeError::InvalidPalette));
}

#[test]
fn bad_lzw_code_is_rejected() {
    // clear, 0, 7 while the table holds six entries
    let bytes = stream(&[header(1, 1, &TWO_COLORS, 0), image(0, 0, 1, 1, &[0xC4, 0x01])]);
    assert_eq!(frames(bytes).err(), Some(DecodeError::InvalidLzwCode));
}

#[test]
fn no_images_no_frames() {
    let bytes = stream(&[header(4, 4, &TWO_COLORS, 0)]);
    assert_eq!(frames(bytes).unwrap().len(), 0);
}

#[test]
fn decompress_rejects_oversized_canvas() {
    let mut gif = parse(stream(&[header(1, 1, &TWO_COLORS, 0)])).unwrap();
    gif.logical_screen_descriptor.canvas_height = 20000;
    assert_eq!(gif.decompress().err(), Some(DecodeError::OversizedCanvas));
}
