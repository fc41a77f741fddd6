use vstd::prelude::*;

use crate::bitstream::concat_blocks;
use crate::error::{DecodeError, DecodeErrorView};
use crate::grammar::{
    palette_colors, parse_color_table, ApplicationExtension, ApplicationView, CommentExtension,
    DisposalMethod, Frame, FrameView, GraphicControlExtension, ImageDescriptor, ImageView,
    LogicalScreenDescriptor, PlainTextExtension, PlainTextView, TableBasedImage,
    DEFAULT_BACKGROUND_COLOR, opt_bytes,
};
use crate::laws::{frames_cover_canvas, pixels_have_zero_alpha};
use crate::lzw::{decode_lzw, lzw_decoded};

verus! {

/// One block of the data stream, in stream order.
#[derive(Debug)]
pub enum Block {
    GraphicControlExtension(GraphicControlExtension),
    TableBasedImage(TableBasedImage),
    PlainTextExtension(PlainTextExtension),
    ApplicationExtension(ApplicationExtension),
    CommentExtension(CommentExtension),
}

/// What a block holds.
pub enum BlockView {
    GraphicControlExtension(GraphicControlExtension),
    TableBasedImage(ImageView),
    PlainTextExtension(PlainTextView),
    ApplicationExtension(ApplicationView),
    CommentExtension(Seq<u8>),
}

impl View for Block {
    type V = BlockView;

    open spec fn view(&self) -> BlockView {
        match self {
            Block::GraphicControlExtension(g) => BlockView::GraphicControlExtension(*g),
            Block::TableBasedImage(t) => BlockView::TableBasedImage(t@),
            Block::PlainTextExtension(p) => BlockView::PlainTextExtension(p@),
            Block::ApplicationExtension(a) => BlockView::ApplicationExtension(a@),
            Block::CommentExtension(c) => BlockView::CommentExtension(c.data@),
        }
    }
}

impl Block {
    /// Application and comment extensions: blocks that the compositor passes over.
    pub fn special_purpose_block(&self) -> (r: bool)
        ensures
            r == (self@ is ApplicationExtension || self@ is CommentExtension),
    {
        match self {
            Block::ApplicationExtension(_) | Block::CommentExtension(_) => true,
            _ => false,
        }
    }
}

/// A parsed data stream: version, logical screen, optional global palette, blocks.
#[derive(Debug)]
pub struct GifDataStream {
    pub version: String,
    pub logical_screen_descriptor: LogicalScreenDescriptor,
    pub global_color_table: Option<Vec<u8>>,
    pub blocks: Vec<Block>,
}

/// What a parsed data stream holds.
pub struct StreamView {
    pub version: Seq<char>,
    pub logical_screen_descriptor: LogicalScreenDescriptor,
    pub global_color_table: Option<Seq<u8>>,
    pub blocks: Seq<BlockView>,
}

impl View for GifDataStream {
    type V = StreamView;

    open spec fn view(&self) -> StreamView {
        StreamView {
            version: self.version@,
            logical_screen_descriptor: self.logical_screen_descriptor,
            global_color_table: opt_bytes(self.global_color_table),
            blocks: block_views(self.blocks@),
        }
    }
}

/// The views of a list of blocks.
pub open spec fn block_views(v: Seq<Block>) -> Seq<BlockView> {
    v.map_values(|b: Block| b@)
}

/// The views of a list of frames.
pub open spec fn frames_view(v: Seq<Frame>) -> Seq<FrameView> {
    v.map_values(|f: Frame| f@)
}

/// The colour of the canvas before the first image: the global palette's
/// entry at the background index, or black without a global palette.
pub open spec fn background_color(s: StreamView) -> Result<u32, DecodeErrorView> {
    match s.global_color_table {
        Some(g) => if g.len() % 3 != 0 || s.logical_screen_descriptor.background_color_index >= g.len() / 3 {
            Err(DecodeErrorView::InvalidPalette)
        } else {
            Ok(palette_colors(g)[s.logical_screen_descriptor.background_color_index as int])
        },
        None => Ok(DEFAULT_BACKGROUND_COLOR),
    }
}

/// Whether canvas column `x`, row `y` lies in the image's rectangle.
pub open spec fn in_rect(d: ImageDescriptor, x: int, y: int) -> bool {
    &&& d.image_left <= x < d.image_left + d.image_width
    &&& d.image_top <= y < d.image_top + d.image_height
}

/// The position in the image's row-major pixels of canvas column `x`, row `y`.
pub open spec fn sub_index(d: ImageDescriptor, x: int, y: int) -> int {
    (y - d.image_top) * d.image_width + (x - d.image_left)
}

/// The canvas, `cw` pixels wide, with the image drawn over it: each pixel of
/// the rectangle that falls on the canvas takes its palette colour, unless
/// that colour is the transparent one. Pixels off the canvas are dropped.
/// Rows are taken in stored order; the interlace flag is not applied.
pub open spec fn paint(
    canvas: Seq<u32>,
    cw: nat,
    d: ImageDescriptor,
    colors: Seq<u32>,
    indices: Seq<usize>,
    transparent: Option<u32>,
) -> Seq<u32> {
    Seq::new(
        canvas.len(),
        |k: int|
            {
                let x = k % (cw as int);
                let y = k / (cw as int);
                if in_rect(d, x, y) {
                    let c = colors[indices[sub_index(d, x, y)] as int];
                    if transparent == Some(c) {
                        canvas[k]
                    } else {
                        c
                    }
                } else {
                    canvas[k]
                }
            },
    )
}

/// The canvas with the image's rectangle filled with `bg`.
pub open spec fn clear_rect(canvas: Seq<u32>, cw: nat, d: ImageDescriptor, bg: u32) -> Seq<u32> {
    Seq::new(
        canvas.len(),
        |k: int|
            if in_rect(d, k % (cw as int), k / (cw as int)) {
                bg
            } else {
                canvas[k]
            },
    )
}

/// The canvas after the image's disposal: `before` is the canvas before the
/// image was drawn, `painted` the canvas with it.
pub open spec fn dispose(
    before: Seq<u32>,
    painted: Seq<u32>,
    cw: nat,
    d: ImageDescriptor,
    bg: u32,
    control: Option<GraphicControlExtension>,
) -> Seq<u32> {
    match control {
        Some(g) => match g.disposal_spec() {
            DisposalMethod::RestoreToBackground => clear_rect(painted, cw, d, bg),
            DisposalMethod::RestoreToPrevious => before,
            _ => painted,
        },
        None => painted,
    }
}

/// The palette in scope for an image: its own, else the global one.
pub open spec fn image_palette(img: ImageView, global: Option<Seq<u8>>) -> Option<Seq<u8>> {
    match img.local_color_table {
        Some(p) => Some(p),
        None => global,
    }
}

/// The transparent colour that a bound graphic control selects, if any.
pub open spec fn transparent_color(control: Option<GraphicControlExtension>, colors: Seq<u32>) -> Option<u32> {
    match control {
        Some(g) => if g.transparent_spec() {
            Some(colors[g.transparent_color_index as int])
        } else {
            None
        },
        None => None,
    }
}

/// The first `n` indices all name colours of the palette.
pub open spec fn indices_in_palette(indices: Seq<usize>, n: int, ncolors: int) -> bool {
    forall|p: int| 0 <= p < n ==> #[trigger] indices[p] < ncolors
}

/// The delay that a bound graphic control gives the frame.
pub open spec fn frame_delay(control: Option<GraphicControlExtension>) -> Option<u16> {
    match control {
        Some(g) => Some(g.delay_time),
        None => None,
    }
}

/// Draws one image over `canvas`: the frame it shows, and the canvas that
/// the next image starts from.
pub open spec fn render_image(
    cw: nat,
    global: Option<Seq<u8>>,
    bg: u32,
    canvas: Seq<u32>,
    control: Option<GraphicControlExtension>,
    img: ImageView,
) -> Result<(FrameView, Seq<u32>), DecodeErrorView> {
    match image_palette(img, global) {
        None => Err(DecodeErrorView::InvalidPalette),
        Some(p) => if p.len() % 3 != 0 {
            Err(DecodeErrorView::InvalidPalette)
        } else {
            let colors = palette_colors(p);
            let d = img.image_descriptor;
            match lzw_decoded(img.lzw_minimum_code, concat_blocks(img.image_data)) {
                Err(e) => Err(e),
                Ok(indices) => {
                    let n = d.image_width * d.image_height;
                    if indices.len() < n {
                        Err(DecodeErrorView::TruncatedImage)
                    } else if !indices_in_palette(indices, n, colors.len() as int) {
                        Err(DecodeErrorView::InvalidPalette)
                    } else if control matches Some(g) && g.transparent_spec()
                        && g.transparent_color_index >= colors.len() {
                        Err(DecodeErrorView::InvalidPalette)
                    } else {
                        let painted = paint(canvas, cw, d, colors, indices, transparent_color(control, colors));
                        Ok(
                            (
                                FrameView { delay_time: frame_delay(control), pixels: painted },
                                dispose(canvas, painted, cw, d, bg, control),
                            ),
                        )
                    }
                },
            }
        },
    }
}

/// The frames that blocks `i..` add to `frames`, starting from `canvas`
/// with `pending` as the graphic control awaiting its image.
pub open spec fn compose_from(
    s: StreamView,
    bg: u32,
    i: int,
    canvas: Seq<u32>,
    pending: Option<GraphicControlExtension>,
    frames: Seq<FrameView>,
) -> Result<Seq<FrameView>, DecodeErrorView>
    decreases s.blocks.len() - i,
{
    if i < 0 || i >= s.blocks.len() {
        Ok(frames)
    } else {
        match s.blocks[i] {
            BlockView::GraphicControlExtension(g) => compose_from(s, bg, i + 1, canvas, Some(g), frames),
            BlockView::PlainTextExtension(_) => compose_from(s, bg, i + 1, canvas, None, frames),
            BlockView::TableBasedImage(img) => match render_image(
                s.logical_screen_descriptor.canvas_width as nat,
                s.global_color_table,
                bg,
                canvas,
                pending,
                img,
            ) {
                Ok((f, next)) => compose_from(s, bg, i + 1, next, None, frames.push(f)),
                Err(e) => Err(e),
            },
            _ => compose_from(s, bg, i + 1, canvas, pending, frames),
        }
    }
}

/// Widest and tallest canvas that the decoder accepts.
pub const MAX_CANVAS_DIMENSION: u16 = 16384;

/// The frames of a parsed stream.
pub open spec fn composed(s: StreamView) -> Result<Seq<FrameView>, DecodeErrorView> {
    if s.logical_screen_descriptor.canvas_width > MAX_CANVAS_DIMENSION
        || s.logical_screen_descriptor.canvas_height > MAX_CANVAS_DIMENSION {
        Err(DecodeErrorView::OversizedCanvas)
    } else {
        composed_on_canvas(s)
    }
}

/// The frames of a parsed stream whose canvas is within bounds.
pub open spec fn composed_on_canvas(s: StreamView) -> Result<Seq<FrameView>, DecodeErrorView> {
    match background_color(s) {
        Ok(bg) => {
            let n = s.logical_screen_descriptor.canvas_width * s.logical_screen_descriptor.canvas_height;
            compose_from(s, bg, 0, Seq::new(n as nat, |k: int| bg), None, Seq::empty())
        },
        Err(e) => Err(e),
    }
}

/// Copies a canvas.
fn copy_pixels(v: &Vec<u32>) -> (r: Vec<u32>)
    ensures
        r@ == v@,
{
    let mut r: Vec<u32> = Vec::with_capacity(v.len());
    let mut i: usize = 0;
    while i < v.len()
        invariant
            i <= v@.len(),
            r@ == v@.take(i as int),
        decreases v@.len() - i,
    {
        r.push(v[i]);
        i = i + 1;
        assert(r@ =~= v@.take(i as int));
    }
    assert(v@.take(v@.len() as int) =~= v@);
    r
}

/// Whether canvas column `x`, row `y` lies in the image's rectangle.
fn rect_contains(d: ImageDescriptor, x: usize, y: usize) -> (r: bool)
    ensures
        r == in_rect(d, x as int, y as int),
{
    let left = d.image_left as usize;
    let top = d.image_top as usize;
    left <= x && x < left + d.image_width as usize && top <= y && y < top + d.image_height as usize
}

/// Draws an image over a canvas `cw` pixels wide.
fn paint_image(
    canvas: &mut Vec<u32>,
    cw: usize,
    d: ImageDescriptor,
    colors: &Vec<u32>,
    indices: &Vec<usize>,
    transparent: Option<u32>,
)
    requires
        old(canvas)@.len() > 0 ==> cw > 0,
        indices@.len() >= d.image_width * d.image_height,
        indices_in_palette(indices@, d.image_width * d.image_height, colors@.len() as int),
    ensures
        final(canvas)@ == paint(old(canvas)@, cw as nat, d, colors@, indices@, transparent),
{
    let ghost before = canvas@;
    let ghost target = paint(before, cw as nat, d, colors@, indices@, transparent);
    let len = canvas.len();
    let mut k: usize = 0;
    while k < len
        invariant
            len == canvas@.len(),
            len == before.len(),
            len > 0 ==> cw > 0,
            target == paint(before, cw as nat, d, colors@, indices@, transparent),
            indices@.len() >= d.image_width * d.image_height,
            indices_in_palette(indices@, d.image_width * d.image_height, colors@.len() as int),
            k <= len,
            forall|j: int| 0 <= j < k ==> canvas@[j] == target[j],
            forall|j: int| k <= j < len ==> canvas@[j] == before[j],
        decreases len - k,
    {
        let x = k % cw;
        let y = k / cw;
        if rect_contains(d, x, y) {
            let w = d.image_width as usize;
            let h = d.image_height as usize;
            let row = y - d.image_top as usize;
            let col = x - d.image_left as usize;
            assert(row * w + col < w * h) by (nonlinear_arith)
                requires
                    row < h,
                    col < w,
            ;
            assert(row * w <= 65535 * 65535) by (nonlinear_arith)
                requires
                    row < h,
                    h <= 65535,
                    w <= 65535,
            ;
            let p = row * w + col;
            let c = colors[indices[p]];
            let keep = match transparent {
                Some(t) => t == c,
                None => false,
            };
            if !keep {
                canvas.set(k, c);
            }
        }
        k = k + 1;
    }
    assert(canvas@ =~= target);
}

/// Fills the image's rectangle of a canvas `cw` pixels wide with `bg`.
fn clear_image_rect(canvas: &mut Vec<u32>, cw: usize, d: ImageDescriptor, bg: u32)
    requires
        old(canvas)@.len() > 0 ==> cw > 0,
    ensures
        final(canvas)@ == clear_rect(old(canvas)@, cw as nat, d, bg),
{
    let ghost before = canvas@;
    let ghost target = clear_rect(before, cw as nat, d, bg);
    let len = canvas.len();
    let mut k: usize = 0;
    while k < len
        invariant
            len == canvas@.len(),
            len == before.len(),
            len > 0 ==> cw > 0,
            target == clear_rect(before, cw as nat, d, bg),
            k <= len,
            forall|j: int| 0 <= j < k ==> canvas@[j] == target[j],
            forall|j: int| k <= j < len ==> canvas@[j] == before[j],
        decreases len - k,
    {
        if rect_contains(d, k % cw, k / cw) {
            canvas.set(k, bg);
        }
        k = k + 1;
    }
    assert(canvas@ =~= target);
}

/// Draws one image over the canvas, returns the frame that shows it, and
/// leaves on the canvas what the image's disposal asks for.
#[verifier::loop_isolation(false)]
fn render_table_based_image(
    canvas: &mut Vec<u32>,
    cw: usize,
    global: &Option<Vec<u8>>,
    bg: u32,
    control: Option<GraphicControlExtension>,
    img: &TableBasedImage,
) -> (r: Result<Frame, DecodeError>)
    requires
        old(canvas)@.len() > 0 ==> cw > 0,
    ensures
        final(canvas)@.len() == old(canvas)@.len(),
        match render_image(cw as nat, opt_bytes(*global), bg, old(canvas)@, control, img@) {
            Ok((f, next)) => r matches Ok(fr) && fr@ == f && final(canvas)@ == next,
            Err(e) => r matches Err(x) && x@ == e,
        },
{
    let palette: &Vec<u8> = match &img.local_color_table {
        Some(p) => p,
        None => match global {
            Some(g) => g,
            None => return Err(DecodeError::InvalidPalette),
        },
    };
    assert(image_palette(img@, opt_bytes(*global)) == Some(palette@));
    if palette.len() % 3 != 0 {
        return Err(DecodeError::InvalidPalette);
    }
    let colors = parse_color_table(palette);
    let indices = match decode_lzw(img.lzw_minimum_code, &img.image_data) {
        Ok(v) => v,
        Err(e) => return Err(e),
    };
    let d = img.image_descriptor;
    assert(d.image_width * d.image_height <= 65535 * 65535) by (nonlinear_arith)
        requires
            d.image_width <= 65535,
            d.image_height <= 65535,
    ;
    let n = d.image_width as usize * d.image_height as usize;
    if indices.len() < n {
        return Err(DecodeError::TruncatedImage);
    }
    let mut p: usize = 0;
    while p < n
        invariant
            p <= n,
            n == d.image_width * d.image_height,
            indices@.len() >= n,
            indices_in_palette(indices@, p as int, colors@.len() as int),
        decreases n - p,
    {
        if indices[p] >= colors.len() {
            return Err(DecodeError::InvalidPalette);
        }
        p = p + 1;
    }
    let transparent = match control {
        Some(g) => if g.transparent_color_flag() {
            let t = g.transparent_color_index as usize;
            if t >= colors.len() {
                return Err(DecodeError::InvalidPalette);
            }
            Some(colors[t])
        } else {
            None
        },
        None => None,
    };
    let disposal = match control {
        Some(g) => Some(g.disposal_method()),
        None => None,
    };
    let previous = match disposal {
        Some(DisposalMethod::RestoreToPrevious) => Some(copy_pixels(canvas)),
        _ => None,
    };
    let ghost before = canvas@;
    paint_image(canvas, cw, d, &colors, &indices, transparent);
    let frame = Frame {
        delay_time: match control {
            Some(g) => Some(g.delay_time),
            None => None,
        },
        pixels: copy_pixels(canvas),
    };
    match disposal {
        Some(DisposalMethod::RestoreToBackground) => clear_image_rect(canvas, cw, d, bg),
        Some(DisposalMethod::RestoreToPrevious) => match previous {
            Some(v) => {
                *canvas = v;
            },
            None => {},
        },
        _ => {},
    }
    Ok(frame)
}

impl GifDataStream {
    /// Composites the stream's images, in order, into frames.
    pub fn decompress(&self) -> (r: Result<Vec<Frame>, DecodeError>)
        ensures
            match composed(self@) {
                Ok(fs) => r matches Ok(v) && frames_view(v@) == fs,
                Err(e) => r matches Err(x) && x@ == e,
            },
            r matches Ok(v) ==> forall|k: int|
                0 <= k < v@.len() ==> #[trigger] v@[k].pixels@.len() == self.logical_screen_descriptor.canvas_width
                    * self.logical_screen_descriptor.canvas_height,
            r matches Ok(v) ==> forall|k: int, j: int|
                0 <= k < v@.len() && 0 <= j < v@[k].pixels@.len() ==> #[trigger] v@[k].pixels@[j]
                    & 0xFF000000u32 == 0,
    {
        let lsd = self.logical_screen_descriptor;
        if lsd.canvas_width > MAX_CANVAS_DIMENSION || lsd.canvas_height > MAX_CANVAS_DIMENSION {
            return Err(DecodeError::OversizedCanvas);
        }
        let cw = lsd.canvas_width as usize;
        let ch = lsd.canvas_height as usize;
        let bg = match &self.global_color_table {
            Some(g) => {
                if g.len() % 3 != 0 {
                    return Err(DecodeError::InvalidPalette);
                }
                let colors = parse_color_table(g);
                let i = lsd.background_color_index as usize;
                if i >= colors.len() {
                    return Err(DecodeError::InvalidPalette);
                }
                colors[i]
            },
            None => DEFAULT_BACKGROUND_COLOR,
        };
        assert(cw * ch <= 65535 * 65535) by (nonlinear_arith)
            requires
                cw <= 65535,
                ch <= 65535,
        ;
        assert(cw * ch > 0 ==> cw > 0) by (nonlinear_arith);
        let mut canvas: Vec<u32> = vec![bg; cw * ch];
        let ghost s = self@;
        assert(canvas@ =~= Seq::new((cw * ch) as nat, |k: int| bg));
        let mut pending: Option<GraphicControlExtension> = None;
        let mut frames: Vec<Frame> = Vec::new();
        assert(frames_view(frames@) =~= Seq::<FrameView>::empty());
        assert(background_color(s) == Ok::<u32, DecodeErrorView>(bg));
        let mut i: usize = 0;
        while i < self.blocks.len()
            invariant
                s == self@,
                background_color(s) == Ok::<u32, DecodeErrorView>(bg),
                cw == s.logical_screen_descriptor.canvas_width,
                canvas@.len() == cw * ch,
                canvas@.len() > 0 ==> cw > 0,
                i <= self.blocks@.len(),
                compose_from(s, bg, i as int, canvas@, pending, frames_view(frames@)) == composed(s),
            decreases self.blocks@.len() - i,
        {
            let ghost fv = frames_view(frames@);
            assert(s.blocks[i as int] == self.blocks@[i as int]@);
            match &self.blocks[i] {
                Block::GraphicControlExtension(g) => {
                    pending = Some(*g);
                },
                Block::PlainTextExtension(_) => {
                    pending = None;
                },
                Block::TableBasedImage(img) => {
                    let f = match render_table_based_image(
                        &mut canvas,
                        cw,
                        &self.global_color_table,
                        bg,
                        pending,
                        img,
                    ) {
                        Ok(f) => f,
                        Err(e) => return Err(e),
                    };
                    frames.push(f);
                    pending = None;
                    assert(frames_view(frames@) =~= fv.push(f@));
                },
                _ => {},
            }
            i = i + 1;
        }
        proof {
            assert(composed(s) == Ok::<Seq<FrameView>, DecodeErrorView>(frames_view(frames@)));
            frames_cover_canvas(s);
            pixels_have_zero_alpha(s);
            assert forall|k: int| 0 <= k < frames@.len() implies #[trigger] frames@[k].pixels@.len()
                == self.logical_screen_descriptor.canvas_width * self.logical_screen_descriptor.canvas_height by {
                assert(frames_view(frames@)[k] == frames@[k]@);
                assert(composed(s)->Ok_0[k].pixels.len() == s.logical_screen_descriptor.canvas_width
                    * s.logical_screen_descriptor.canvas_height);
            }
            assert forall|k: int, j: int| 0 <= k < frames@.len() && 0 <= j < frames@[k].pixels@.len()
                implies #[trigger] frames@[k].pixels@[j] & 0xFF000000u32 == 0 by {
                assert(frames_view(frames@)[k] == frames@[k]@);
                assert(composed(s)->Ok_0[k].pixels[j] & 0xFF000000u32 == 0);
            }
        }
        Ok(frames)
    }
}

} // verus!
