use jif::gif_data_stream::Block;
use jif::grammar::{
    build_code_table, parse_color_table, CommentExtension, DisposalMethod, GraphicControlExtension,
    ImageDescriptor, LogicalScreenDescriptor,
};

fn screen(packed_field: u8) -> LogicalScreenDescriptor {
    LogicalScreenDescriptor {
        canvas_width: 1,
        canvas_height: 1,
        packed_field,
        background_color_index: 0,
        pixel_aspect_ratio: 0,
    }
}

fn descriptor(packed_field: u8) -> ImageDescriptor {
    ImageDescriptor { image_left: 0, image_top: 0, image_width: 1, image_height: 1, packed_field }
}

fn control(packed_field: u8) -> GraphicControlExtension {
    GraphicControlExtension { packed_field, delay_time: 0, transparent_color_index: 0 }
}

#[test]
fn screen_flags_follow_packed_bits() {
    let s = screen(0b1101_0010);
    assert!(s.global_color_table_flag());
    assert_eq!(s.color_resolution(), 6);
    assert!(!s.sort_flag());
    assert_eq!(s.global_color_table_size(), 24);

    let t = screen(0b0000_1111);
    assert!(!t.global_color_table_flag());
    assert_eq!(t.color_resolution(), 1);
    assert!(t.sort_flag());
    assert_eq!(t.global_color_table_size(), 768);
}

#[test]
fn color_table_size_for_each_size_field() {
    let expected = [6, 12, 24, 48, 96, 192, 384, 768];
    for s in 0..8u8 {
        assert_eq!(screen(s).global_color_table_size(), expected[s as usize]);
        assert_eq!(descriptor(0x80 | s).local_color_table_size(), expected[s as usize]);
    }
}

#[test]
fn descriptor_flags_follow_packed_bits() {
    let d = descriptor(0b1010_0001);
    assert!(d.local_color_table_flag());
    assert!(!d.interlace_flag());
    assert!(d.sort_flag());
    assert_eq!(d.local_color_table_size(), 12);

    let e = descriptor(0b0100_0000);
    assert!(!e.local_color_table_flag());
    assert!(e.interlace_flag());
    assert!(!e.sort_flag());
}

#[test]
fn control_flags_follow_packed_bits() {
    assert_eq!(control(0b000_000_0_0).disposal_method(), DisposalMethod::NotRequired);
    assert_eq!(control(0b000_001_0_0).disposal_method(), DisposalMethod::DoNotDispose);
    assert_eq!(control(0b000_010_0_0).disposal_method(), DisposalMethod::RestoreToBackground);
    assert_eq!(control(0b000_011_0_0).disposal_method(), DisposalMethod::RestoreToPrevious);
    assert_eq!(control(0b000_111_0_0).disposal_method(), DisposalMethod::ToBeDefined);
    let c = control(0b000_011_1_1);
    assert!(c.user_input_flag());
    assert!(c.transparent_color_flag());
    let d = control(0b1110_0000);
    assert!(!d.user_input_flag());
    assert!(!d.transparent_color_flag());
    assert_eq!(d.disposal_method(), DisposalMethod::NotRequired);
}

#[test]
fn disposal_method_from_each_value() {
    assert_eq!(DisposalMethod::from(0), DisposalMethod::NotRequired);
    assert_eq!(DisposalMethod::from(1), DisposalMethod::DoNotDispose);
    assert_eq!(DisposalMethod::from(2), DisposalMethod::RestoreToBackground);
    assert_eq!(DisposalMethod::from(3), DisposalMethod::RestoreToPrevious);
    for d in 4..=255u8 {
        assert_eq!(DisposalMethod::from(d), DisposalMethod::ToBeDefined);
    }
}

#[test]
fn parse_color_table_makes_rgb_pixels() {
    let colors = parse_color_table(&vec![0xFF, 0x00, 0x00, 0x01, 0x02, 0x03, 0xAA]);
    assert_eq!(colors, vec![0x00FF0000, 0x00010203]);
    assert_eq!(parse_color_table(&vec![]), Vec::<u32>::new());
}

#[test]
fn build_code_table_has_one_entry_per_code() {
    let table = build_code_table(4);
    assert_eq!(table, vec![vec![0], vec![1], vec![2], vec![3], vec![4], vec![5]]);
}

#[test]
fn special_purpose_blocks_are_application_and_comment() {
    assert!(Block::CommentExtension(CommentExtension { data: vec![] }).special_purpose_block());
    assert!(!Block::GraphicControlExtension(control(0)).special_purpose_block());
}
