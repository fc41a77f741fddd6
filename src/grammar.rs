use vstd::arithmetic::power2::{lemma2_to64, pow2};
use vstd::bits::lemma_usize_shl_is_mul;
use vstd::prelude::*;

use crate::bitstream::blocks_view;

verus! {

/// The colour of the canvas when the stream has no global palette.
pub const DEFAULT_BACKGROUND_COLOR: u32 = 0;

/// Bytes in a colour table whose size field (the low three bits of a packed
/// byte) is `packed % 8`: three bytes for each of `2^(s+1)` colours.
pub open spec fn color_table_bytes(packed: u8) -> nat {
    3 * pow2((packed % 8 + 1) as nat)
}

/// An `0x00RRGGBB` pixel.
pub open spec fn rgb(r: u8, g: u8, b: u8) -> u32 {
    (r as int * 0x10000 + g as int * 0x100 + b as int) as u32
}

/// The colours of a palette given as RGB triples; a trailing partial triple is ignored.
pub open spec fn palette_colors(p: Seq<u8>) -> Seq<u32> {
    Seq::new(p.len() / 3, |i: int| rgb(p[3 * i], p[3 * i + 1], p[3 * i + 2]))
}

/// The LZW code table before any code is read: entry `i` is the one index `i`.
pub open spec fn initial_code_table(size: nat) -> Seq<Seq<usize>> {
    Seq::new(size, |i: int| seq![i as usize])
}

/// Builds a code table of `size + 2` one-element entries (`size` colour
/// indices, then the clear and end-of-information codes).
pub fn build_code_table(size: usize) -> (r: Vec<Vec<usize>>)
    requires
        size + 2 <= usize::MAX,
    ensures
        r@.map_values(|v: Vec<usize>| v@) == initial_code_table((size + 2) as nat),
{
    let mut table: Vec<Vec<usize>> = Vec::new();
    let mut c: usize = 0;
    while c < size + 2
        invariant
            c <= size + 2,
            size + 2 <= usize::MAX,
            table@.map_values(|v: Vec<usize>| v@) == initial_code_table(c as nat),
        decreases size + 2 - c,
    {
        let entry = vec![c];
        assert(entry@ =~= seq![c]);
        let ghost before = table@;
        table.push(entry);
        assert(table@.map_values(|v: Vec<usize>| v@) =~= before.map_values(|v: Vec<usize>| v@).push(seq![c]));
        c = c + 1;
        assert(table@.map_values(|v: Vec<usize>| v@) =~= initial_code_table(c as nat));
    }
    table
}

/// Turns palette bytes into `0x00RRGGBB` colours, one for each whole triple.
pub fn parse_color_table(color_table: &Vec<u8>) -> (r: Vec<u32>)
    ensures
        r@ == palette_colors(color_table@),
{
    let len = color_table.len();
    let n = len / 3;
    let mut out: Vec<u32> = Vec::with_capacity(n);
    let mut i: usize = 0;
    let mut j: usize = 0;
    while i < n
        invariant
            i <= n,
            j == 3 * i,
            n == color_table@.len() / 3,
            len == color_table@.len(),
            out@ == palette_colors(color_table@).take(i as int),
        decreases n - i,
    {
        assert(j + 2 < color_table@.len()) by (nonlinear_arith)
            requires
                j == 3 * i,
                i < n,
                n == color_table@.len() / 3,
        ;
        let r = color_table[j];
        let g = color_table[j + 1];
        let b = color_table[j + 2];
        out.push((r as u32) * 0x10000 + (g as u32) * 0x100 + b as u32);
        i = i + 1;
        j = j + 3;
        assert(out@ =~= palette_colors(color_table@).take(i as int));
    }
    assert(out@ =~= palette_colors(color_table@));
    out
}

/// An application extension: an identifier, an authentication code and the
/// application's data.
#[derive(Debug)]
pub struct ApplicationExtension {
    pub identifier: String,
    pub authentication_code: [u8; 3],
    pub data: Vec<u8>,
}

/// A comment extension: free text that does not affect the image.
#[derive(Debug)]
pub struct CommentExtension {
    pub data: Vec<u8>,
}

/// What happens to the canvas after a graphic has been displayed.
#[derive(Debug, Clone, Copy, PartialEq, Eq, Structural)]
pub enum DisposalMethod {
    NotRequired,
    DoNotDispose,
    RestoreToBackground,
    RestoreToPrevious,
    ToBeDefined,
}

/// The disposal method that a three-bit field selects.
pub open spec fn disposal_of(d: u8) -> DisposalMethod {
    if d == 0 {
        DisposalMethod::NotRequired
    } else if d == 1 {
        DisposalMethod::DoNotDispose
    } else if d == 2 {
        DisposalMethod::RestoreToBackground
    } else if d == 3 {
        DisposalMethod::RestoreToPrevious
    } else {
        DisposalMethod::ToBeDefined
    }
}

impl DisposalMethod {
    /// The disposal method that the three-bit value `d` selects.
    pub fn from(d: u8) -> (r: Self)
        ensures
            r == disposal_of(d),
    {
        match d {
            0 => Self::NotRequired,
            1 => Self::DoNotDispose,
            2 => Self::RestoreToBackground,
            3 => Self::RestoreToPrevious,
            _ => Self::ToBeDefined,
        }
    }
}

/// The GraphicControlExtension contains parameters used when processing a
/// graphic rendering block. Its scope is the first graphic rendering block
/// to follow.
#[derive(Debug, Clone, Copy, PartialEq, Eq, Structural)]
pub struct GraphicControlExtension {
    pub packed_field: u8,
    /// If not 0, the number of hundredths of a second to wait before
    /// continuing with the processing of the data stream.
    pub delay_time: u16,
    /// Pixels of this index leave the canvas unchanged, when the
    /// transparent-colour flag is set.
    pub transparent_color_index: u8,
}

impl GraphicControlExtension {
    /// The disposal method of bits 4..2 of the packed field.
    pub open spec fn disposal_spec(&self) -> DisposalMethod {
        disposal_of((self.packed_field / 4) % 8)
    }

    /// Bit 0 of the packed field.
    pub open spec fn transparent_spec(&self) -> bool {
        self.packed_field % 2 == 1
    }

    /// Indicates the way in which the graphic is to be treated after being
    /// displayed.
    pub fn disposal_method(&self) -> (r: DisposalMethod)
        ensures
            r == self.disposal_spec(),
    {
        let p = self.packed_field;
        let d = (p & 0b11100) >> 2;
        assert(d == (p / 4) % 8) by (bit_vector)
            requires
                d == (p & 0b11100) >> 2,
        ;
        DisposalMethod::from(d)
    }

    /// Indicates whether user input is expected before continuing (bit 1).
    pub fn user_input_flag(&self) -> (r: bool)
        ensures
            r == ((self.packed_field / 2) % 2 == 1),
    {
        let p = self.packed_field;
        let r = ((p & 0b10) >> 1) == 1;
        assert(r == ((p / 2) % 2 == 1)) by (bit_vector)
            requires
                r == (((p & 0b10) >> 1) == 1),
        ;
        r
    }

    /// Indicates whether `transparent_color_index` is in force (bit 0).
    pub fn transparent_color_flag(&self) -> (r: bool)
        ensures
            r == self.transparent_spec(),
    {
        let p = self.packed_field;
        let r = (p & 0b1) == 1;
        assert(r == (p % 2 == 1)) by (bit_vector)
            requires
                r == ((p & 0b1) == 1),
        ;
        r
    }
}

/// The ImageDescriptor contains the parameters necessary to process a table
/// based image: its place on the canvas, its size, and its packed flags.
#[derive(Debug, Clone, Copy, PartialEq, Eq, Structural)]
pub struct ImageDescriptor {
    /// Column of the left edge of the image on the canvas.
    pub image_left: u16,
    /// Row of the top edge of the image on the canvas.
    pub image_top: u16,
    /// Width of the image in pixels.
    pub image_width: u16,
    /// Height of the image in pixels.
    pub image_height: u16,
    pub packed_field: u8,
}

impl ImageDescriptor {
    /// Bit 7 of the packed field.
    pub open spec fn local_table_spec(&self) -> bool {
        self.packed_field / 128 == 1
    }

    /// Indicates a local colour table right after this descriptor (bit 7).
    pub fn local_color_table_flag(&self) -> (r: bool)
        ensures
            r == self.local_table_spec(),
    {
        let p = self.packed_field;
        let r = ((p & 0b1000_0000) >> 7) == 1;
        assert(r == (p / 128 == 1)) by (bit_vector)
            requires
                r == (((p & 0b1000_0000) >> 7) == 1),
        ;
        r
    }

    /// Indicates an interlaced image (bit 6).
    pub fn interlace_flag(&self) -> (r: bool)
        ensures
            r == ((self.packed_field / 64) % 2 == 1),
    {
        let p = self.packed_field;
        let r = ((p & 0b100_0000) >> 6) == 1;
        assert(r == ((p / 64) % 2 == 1)) by (bit_vector)
            requires
                r == (((p & 0b100_0000) >> 6) == 1),
        ;
        r
    }

    /// Indicates a local colour table sorted by decreasing importance (bit 5).
    pub fn sort_flag(&self) -> (r: bool)
        ensures
            r == ((self.packed_field / 32) % 2 == 1),
    {
        let p = self.packed_field;
        let r = ((p & 0b10_0000) >> 5) == 1;
        assert(r == ((p / 32) % 2 == 1)) by (bit_vector)
            requires
                r == (((p & 0b10_0000) >> 5) == 1),
        ;
        r
    }

    /// Bytes in the local colour table, when the flag says there is one.
    pub fn local_color_table_size(&self) -> (r: usize)
        ensures
            r == color_table_bytes(self.packed_field),
    {
        table_size(self.packed_field)
    }
}

/// `3 * 2^(s+1)`, where `s` is the low three bits of `packed`.
fn table_size(packed: u8) -> (r: usize)
    ensures
        r == color_table_bytes(packed),
{
    let s = (packed & 0b111) as usize;
    assert(s == packed % 8) by (bit_vector)
        requires
            s == (packed & 0b111),
    ;
    proof {
        lemma2_to64();
        lemma_usize_shl_is_mul(1, (s + 1) as usize);
    }
    (1usize << (s + 1)) * 3
}

/// The LogicalScreenDescriptor defines the area of the display within which
/// the images are rendered, and whether a global colour table follows.
#[derive(Debug, Clone, Copy, PartialEq, Eq, Structural)]
pub struct LogicalScreenDescriptor {
    /// Width, in pixels, of the canvas.
    pub canvas_width: u16,
    /// Height, in pixels, of the canvas.
    pub canvas_height: u16,
    pub packed_field: u8,
    /// Index into the global colour table of the background colour.
    pub background_color_index: u8,
    /// Factor for the pixel aspect ratio of the original image.
    pub pixel_aspect_ratio: u8,
}

impl LogicalScreenDescriptor {
    /// Bit 7 of the packed field.
    pub open spec fn global_table_spec(&self) -> bool {
        self.packed_field / 128 == 1
    }

    /// Flag indicating the presence of a global colour table (bit 7).
    pub fn global_color_table_flag(&self) -> (r: bool)
        ensures
            r == self.global_table_spec(),
    {
        let p = self.packed_field;
        let r = ((p & 0b1000_0000) >> 7) == 1;
        assert(r == (p / 128 == 1)) by (bit_vector)
            requires
                r == (((p & 0b1000_0000) >> 7) == 1),
        ;
        r
    }

    /// Bits per primary colour of the original image (bits 6..4, plus one).
    pub fn color_resolution(&self) -> (r: u8)
        ensures
            r == (self.packed_field / 16) % 8 + 1,
    {
        let p = self.packed_field;
        let c = (p & 0b0111_0000) >> 4;
        assert(c == (p / 16) % 8) by (bit_vector)
            requires
                c == (p & 0b0111_0000) >> 4,
        ;
        c + 1
    }

    /// Indicates a global colour table sorted by decreasing importance (bit 3).
    pub fn sort_flag(&self) -> (r: bool)
        ensures
            r == ((self.packed_field / 8) % 2 == 1),
    {
        let p = self.packed_field;
        let r = ((p & 0b1000) >> 3) == 1;
        assert(r == ((p / 8) % 2 == 1)) by (bit_vector)
            requires
                r == (((p & 0b1000) >> 3) == 1),
        ;
        r
    }

    /// Bytes in the global colour table, when the flag says there is one.
    pub fn global_color_table_size(&self) -> (r: usize)
        ensures
            r == color_table_bytes(self.packed_field),
    {
        table_size(self.packed_field)
    }
}

/// The Plain Text Extension: text to draw in a grid of character cells.
/// It is parsed but not rendered.
#[derive(Debug)]
pub struct PlainTextExtension {
    pub text_grid_left_position: u16,
    pub text_grid_top_position: u16,
    pub text_grid_width: u16,
    pub text_grid_height: u16,
    pub character_cell_width: u8,
    pub character_cell_height: u8,
    pub text_foreground_color_index: u8,
    pub text_background_color_index: u8,
    pub plain_text_data: Vec<u8>,
}

/// An image: its descriptor, an optional local palette, the LZW minimum
/// code size, and the compressed data as a list of sub-blocks.
#[derive(Debug)]
pub struct TableBasedImage {
    pub image_descriptor: ImageDescriptor,
    pub local_color_table: Option<Vec<u8>>,
    pub lzw_minimum_code: u8,
    pub image_data: Vec<Vec<u8>>,
}

/// One composited frame: the delay before the next one, and the canvas.
#[derive(Debug)]
pub struct Frame {
    pub delay_time: Option<u16>,
    pub pixels: Vec<u32>,
}

/// The view of an optional byte vector.
pub open spec fn opt_bytes(o: Option<Vec<u8>>) -> Option<Seq<u8>> {
    match o {
        Some(v) => Some(v@),
        None => None,
    }
}

/// What an application extension holds.
pub struct ApplicationView {
    pub identifier: Seq<char>,
    pub authentication_code: Seq<u8>,
    pub data: Seq<u8>,
}

impl View for ApplicationExtension {
    type V = ApplicationView;

    open spec fn view(&self) -> ApplicationView {
        ApplicationView {
            identifier: self.identifier@,
            authentication_code: self.authentication_code@,
            data: self.data@,
        }
    }
}

/// What a plain text extension holds.
pub struct PlainTextView {
    pub text_grid_left_position: u16,
    pub text_grid_top_position: u16,
    pub text_grid_width: u16,
    pub text_grid_height: u16,
    pub character_cell_width: u8,
    pub character_cell_height: u8,
    pub text_foreground_color_index: u8,
    pub text_background_color_index: u8,
    pub plain_text_data: Seq<u8>,
}

impl View for PlainTextExtension {
    type V = PlainTextView;

    open spec fn view(&self) -> PlainTextView {
        PlainTextView {
            text_grid_left_position: self.text_grid_left_position,
            text_grid_top_position: self.text_grid_top_position,
            text_grid_width: self.text_grid_width,
            text_grid_height: self.text_grid_height,
            character_cell_width: self.character_cell_width,
            character_cell_height: self.character_cell_height,
            text_foreground_color_index: self.text_foreground_color_index,
            text_background_color_index: self.text_background_color_index,
            plain_text_data: self.plain_text_data@,
        }
    }
}

/// What a table based image holds.
pub struct ImageView {
    pub image_descriptor: ImageDescriptor,
    pub local_color_table: Option<Seq<u8>>,
    pub lzw_minimum_code: u8,
    pub image_data: Seq<Seq<u8>>,
}

impl View for TableBasedImage {
    type V = ImageView;

    open spec fn view(&self) -> ImageView {
        ImageView {
            image_descriptor: self.image_descriptor,
            local_color_table: opt_bytes(self.local_color_table),
            lzw_minimum_code: self.lzw_minimum_code,
            image_data: blocks_view(self.image_data@),
        }
    }
}

/// What a frame holds.
pub struct FrameView {
    pub delay_time: Option<u16>,
    pub pixels: Seq<u32>,
}

impl View for Frame {
    type V = FrameView;

    open spec fn view(&self) -> FrameView {
        FrameView { delay_time: self.delay_time, pixels: self.pixels@ }
    }
}

} // verus!
