use vstd::arithmetic::power2::{lemma2_to64, lemma_pow2_strictly_increases, pow2};
use vstd::prelude::*;

use crate::decode::parsed;
use crate::error::DecodeErrorView;
use crate::gif_data_stream::{
    background_color, compose_from, composed, composed_on_canvas, in_rect, render_image, sub_index,
    BlockView, StreamView,
};
use crate::grammar::{palette_colors, DisposalMethod, FrameView, GraphicControlExtension, ImageDescriptor, ImageView};
use crate::bitstream::code_at;
use crate::lzw::{clear_code, eoi_code, lzw_initial, lzw_run, lzw_state_wf, lzw_step, LzwState, LzwStep};

verus! {

/// The frames that the bytes `d` decode to.
pub open spec fn decoded(d: Seq<u8>) -> Result<Seq<FrameView>, DecodeErrorView> {
    match parsed(d, 0) {
        Ok(s) => composed(s),
        Err(e) => Err(e),
    }
}

/// A stream that parses has a canvas at least one pixel wide and one pixel tall.
pub proof fn parsed_canvas_is_nonempty(d: Seq<u8>, p: int)
    requires
        parsed(d, p) is Ok,
    ensures
        parsed(d, p)->Ok_0.logical_screen_descriptor.canvas_width > 0,
        parsed(d, p)->Ok_0.logical_screen_descriptor.canvas_height > 0,
{
}

/// A parsed global palette holds exactly `3 * 2^(s+1)` bytes, where `s` is
/// the low three bits of the screen's packed field.
pub proof fn parsed_global_palette_size(d: Seq<u8>, p: int)
    requires
        parsed(d, p) is Ok,
        parsed(d, p)->Ok_0.global_color_table is Some,
    ensures
        ({
            let s = parsed(d, p)->Ok_0;
            s.global_color_table->Some_0.len() == 3 * pow2((s.logical_screen_descriptor.packed_field % 8
                + 1) as nat)
        }),
{
}

/// Every colour of a palette is a pixel with a zero alpha byte.
proof fn palette_colors_are_rgb(p: Seq<u8>)
    ensures
        forall|i: int| 0 <= i < palette_colors(p).len() ==> #[trigger] palette_colors(p)[i] < 0x1000000,
{
}

/// A canvas of `n` pixels that each fit in 24 bits.
pub open spec fn rgb_canvas(c: Seq<u32>, n: int) -> bool {
    &&& c.len() == n
    &&& forall|j: int| 0 <= j < n ==> #[trigger] c[j] < 0x1000000
}

/// The pixel that an image puts at canvas position `k` is one of its palette's.
proof fn sub_index_in_image(d: ImageDescriptor, x: int, y: int)
    requires
        in_rect(d, x, y),
    ensures
        0 <= sub_index(d, x, y) < d.image_width * d.image_height,
{
    let row = y - d.image_top;
    let col = x - d.image_left;
    let w = d.image_width as int;
    let h = d.image_height as int;
    assert(0 <= row * w + col < w * h) by (nonlinear_arith)
        requires
            0 <= row < h,
            0 <= col < w,
    ;
}

proof fn render_keeps_rgb_canvas(
    cw: nat,
    global: Option<Seq<u8>>,
    bg: u32,
    canvas: Seq<u32>,
    control: Option<GraphicControlExtension>,
    img: ImageView,
)
    requires
        bg < 0x1000000,
        rgb_canvas(canvas, canvas.len() as int),
        render_image(cw, global, bg, canvas, control, img) is Ok,
    ensures
        ({
            let (f, next) = render_image(cw, global, bg, canvas, control, img)->Ok_0;
            rgb_canvas(f.pixels, canvas.len() as int) && rgb_canvas(next, canvas.len() as int)
        }),
{
    let p = match img.local_color_table {
        Some(p) => p,
        None => global->Some_0,
    };
    palette_colors_are_rgb(p);
    let (f, next) = render_image(cw, global, bg, canvas, control, img)->Ok_0;
    assert forall|k: int| 0 <= k < canvas.len() implies #[trigger] f.pixels[k] < 0x1000000 by {
        let x = k % (cw as int);
        let y = k / (cw as int);
        if in_rect(img.image_descriptor, x, y) {
            sub_index_in_image(img.image_descriptor, x, y);
        }
    }
}

proof fn compose_keeps_rgb_frames(
    s: StreamView,
    bg: u32,
    i: int,
    canvas: Seq<u32>,
    pending: Option<GraphicControlExtension>,
    frames: Seq<FrameView>,
    n: int,
)
    requires
        bg < 0x1000000,
        rgb_canvas(canvas, n),
        forall|k: int| 0 <= k < frames.len() ==> rgb_canvas(#[trigger] frames[k].pixels, n),
        compose_from(s, bg, i, canvas, pending, frames) is Ok,
    ensures
        forall|k: int|
            0 <= k < compose_from(s, bg, i, canvas, pending, frames)->Ok_0.len() ==> rgb_canvas(
                #[trigger] compose_from(s, bg, i, canvas, pending, frames)->Ok_0[k].pixels,
                n,
            ),
    decreases s.blocks.len() - i,
{
    if 0 <= i < s.blocks.len() {
        match s.blocks[i] {
            BlockView::GraphicControlExtension(g) => {
                compose_keeps_rgb_frames(s, bg, i + 1, canvas, Some(g), frames, n);
            },
            BlockView::PlainTextExtension(_) => {
                compose_keeps_rgb_frames(s, bg, i + 1, canvas, None, frames, n);
            },
            BlockView::TableBasedImage(img) => {
                let cw = s.logical_screen_descriptor.canvas_width as nat;
                render_keeps_rgb_canvas(cw, s.global_color_table, bg, canvas, pending, img);
                let (f, next) = render_image(cw, s.global_color_table, bg, canvas, pending, img)->Ok_0;
                let fs = frames.push(f);
                assert forall|k: int| 0 <= k < fs.len() implies rgb_canvas(#[trigger] fs[k].pixels, n) by {
                    if k < frames.len() {
                        assert(fs[k] == frames[k]);
                    }
                }
                compose_keeps_rgb_frames(s, bg, i + 1, next, None, fs, n);
            },
            _ => {
                compose_keeps_rgb_frames(s, bg, i + 1, canvas, pending, frames, n);
            },
        }
    }
}

proof fn composed_frames_are_rgb(s: StreamView)
    requires
        composed(s) is Ok,
    ensures
        forall|k: int|
            0 <= k < composed(s)->Ok_0.len() ==> rgb_canvas(
                #[trigger] composed(s)->Ok_0[k].pixels,
                s.logical_screen_descriptor.canvas_width * s.logical_screen_descriptor.canvas_height,
            ),
{
    assert(composed_on_canvas(s) is Ok);
    let bg = background_color(s)->Ok_0;
    match s.global_color_table {
        Some(g) => palette_colors_are_rgb(g),
        None => {},
    }
    let n = s.logical_screen_descriptor.canvas_width * s.logical_screen_descriptor.canvas_height;
    compose_keeps_rgb_frames(s, bg, 0, Seq::new(n as nat, |k: int| bg), None, Seq::empty(), n);
}

/// Every frame holds exactly `canvas_width * canvas_height` pixels.
pub proof fn frames_cover_canvas(s: StreamView)
    requires
        composed(s) is Ok,
    ensures
        forall|k: int|
            0 <= k < composed(s)->Ok_0.len() ==> #[trigger] composed(s)->Ok_0[k].pixels.len()
                == s.logical_screen_descriptor.canvas_width * s.logical_screen_descriptor.canvas_height,
{
    composed_frames_are_rgb(s);
    assert forall|k: int| 0 <= k < composed(s)->Ok_0.len() implies #[trigger] composed(s)->Ok_0[k].pixels.len()
        == s.logical_screen_descriptor.canvas_width * s.logical_screen_descriptor.canvas_height by {
        assert(rgb_canvas(composed(s)->Ok_0[k].pixels, s.logical_screen_descriptor.canvas_width * s.logical_screen_descriptor.canvas_height));
    }
}

/// The alpha byte of every pixel of every frame is zero.
pub proof fn pixels_have_zero_alpha(s: StreamView)
    requires
        composed(s) is Ok,
    ensures
        forall|k: int, j: int|
            0 <= k < composed(s)->Ok_0.len() && 0 <= j < composed(s)->Ok_0[k].pixels.len()
                ==> #[trigger] composed(s)->Ok_0[k].pixels[j] & 0xFF000000u32 == 0,
{
    composed_frames_are_rgb(s);
    assert forall|k: int, j: int|
        0 <= k < composed(s)->Ok_0.len() && 0 <= j < composed(s)->Ok_0[k].pixels.len()
            implies #[trigger] composed(s)->Ok_0[k].pixels[j] & 0xFF000000u32 == 0 by {
        let px = composed(s)->Ok_0[k].pixels[j];
        assert(rgb_canvas(composed(s)->Ok_0[k].pixels, s.logical_screen_descriptor.canvas_width * s.logical_screen_descriptor.canvas_height));
        assert(px < 0x1000000);
        assert(px < 0x1000000 ==> px & 0xFF000000u32 == 0) by (bit_vector);
    }
}

/// The first code after a clear code that neither clears again nor ends
/// the data is a colour index: it is below `2^m`.
pub proof fn first_code_after_reset_is_a_color(m: u8, s: LzwState, c: nat)
    requires
        s.started,
        s.prev is None,
        c != clear_code(m),
        c != eoi_code(m),
        lzw_step(m, s, c) is Ok,
    ensures
        c < pow2(m as nat),
{
}

/// The code table never holds more than 4096 entries: the state before the
/// first code is well formed, and each code of at most twelve bits keeps
/// the state well formed.
pub proof fn code_table_stays_bounded(m: u8, s: LzwState, c: nat)
    requires
        lzw_state_wf(m, s),
        c < 4096,
    ensures
        lzw_state_wf(m, lzw_initial(m)),
        lzw_step(m, s, c) matches Ok(LzwStep::Continue(n)) ==> lzw_state_wf(m, n)
            && n.table.len() <= 4096,
{
    lemma2_to64();
    if m > 12 {
        lemma_pow2_strictly_increases(12, m as nat);
    }
    if m < 11 {
        lemma_pow2_strictly_increases(m as nat, 11);
    }
    if let Ok(LzwStep::Continue(n)) = lzw_step(m, s, c) {
        if c != clear_code(m) && s.prev is Some {
            let p = s.prev->Some_0;
            let entry = if c < s.table.len() {
                s.table[c as int]
            } else {
                s.table[p as int].push(s.table[p as int][0])
            };
            assert(entry.len() > 0);
            assert forall|i: int| 0 <= i < n.table.len() implies #[trigger] n.table[i].len() > 0 by {
                if i < s.table.len() {
                    assert(n.table[i] == s.table[i]);
                }
            }
        }
    }
}

/// After an image whose graphic control asks to restore the previous
/// canvas, the canvas is the one from before the image was drawn.
pub proof fn restore_to_previous_restores_canvas(
    cw: nat,
    global: Option<Seq<u8>>,
    bg: u32,
    canvas: Seq<u32>,
    g: GraphicControlExtension,
    img: ImageView,
)
    requires
        g.disposal_spec() == DisposalMethod::RestoreToPrevious,
        render_image(cw, global, bg, canvas, Some(g), img) is Ok,
    ensures
        render_image(cw, global, bg, canvas, Some(g), img)->Ok_0.1 == canvas,
{
}

/// A code read at the start of a run, right after a clear code, that is
/// neither the clear code, nor the end code, nor a colour index fails the
/// whole image with `InvalidLzwCode`.
pub proof fn out_of_range_first_code_fails_the_run(m: u8, d: Seq<u8>, pos: int, s: LzwState)
    requires
        s.started,
        s.prev is None,
        1 <= s.width,
        pos + s.width <= d.len() * 8,
        code_at(d, pos, s.width) >= pow2(m as nat),
        code_at(d, pos, s.width) != clear_code(m),
        code_at(d, pos, s.width) != eoi_code(m),
    ensures
        lzw_run(m, d, pos, s) == Err::<Seq<usize>, DecodeErrorView>(DecodeErrorView::InvalidLzwCode),
{
}

/// A code equal to the table's size (the entry about to be defined) stands
/// for the previous code's sequence followed by its own first index; that
/// sequence is output and becomes the new entry.
pub proof fn self_referential_code_extends_previous(m: u8, s: LzwState, c: nat)
    requires
        lzw_state_wf(m, s),
        s.started,
        s.prev is Some,
        c == s.table.len(),
        c < 4096,
        c != clear_code(m),
        c != eoi_code(m),
    ensures
        ({
            let p = s.prev->Some_0 as int;
            let entry = s.table[p].push(s.table[p][0]);
            lzw_step(m, s, c) matches Ok(LzwStep::Continue(n)) && n.out == s.out + entry
                && n.table == s.table.push(entry) && n.prev == Some(c as usize)
        }),
{
}

/// When an added entry brings the table to `2^width` entries and the width
/// is below twelve, the next code is one bit wider; at twelve bits the width
/// stays.
pub proof fn width_grows_at_table_boundary(m: u8, s: LzwState, c: nat)
    requires
        lzw_state_wf(m, s),
        s.started,
        s.prev is Some,
        c <= s.table.len(),
        s.table.len() < 4096,
        c != clear_code(m),
        c != eoi_code(m),
    ensures
        lzw_step(m, s, c) matches Ok(LzwStep::Continue(n)) && n.width == if s.table.len() + 1 == pow2(s.width)
            && s.width < 12 {
            s.width + 1
        } else {
            s.width
        },
{
}

/// An image whose graphic control asks to restore the previous canvas
/// hands the next block the canvas from before the image was drawn.
pub proof fn restore_to_previous_hands_on_prior_canvas(
    s: StreamView,
    bg: u32,
    i: int,
    canvas: Seq<u32>,
    g: GraphicControlExtension,
    frames: Seq<FrameView>,
)
    requires
        0 <= i < s.blocks.len(),
        s.blocks[i] is TableBasedImage,
        g.disposal_spec() == DisposalMethod::RestoreToPrevious,
        render_image(
            s.logical_screen_descriptor.canvas_width as nat,
            s.global_color_table,
            bg,
            canvas,
            Some(g),
            s.blocks[i]->TableBasedImage_0,
        ) is Ok,
    ensures
        ({
            let f = render_image(
                s.logical_screen_descriptor.canvas_width as nat,
                s.global_color_table,
                bg,
                canvas,
                Some(g),
                s.blocks[i]->TableBasedImage_0,
            )->Ok_0.0;
            compose_from(s, bg, i, canvas, Some(g), frames) == compose_from(s, bg, i + 1, canvas, None, frames.push(f))
        }),
{
}

/// A chain of two images that each restore the previous canvas leaves the
/// canvas as it was before the first of them: the block after the second
/// image starts from that canvas.
pub proof fn restore_to_previous_chain_returns_canvas(
    s: StreamView,
    bg: u32,
    i: int,
    canvas: Seq<u32>,
    g1: GraphicControlExtension,
    g2: GraphicControlExtension,
    frames: Seq<FrameView>,
)
    requires
        0 <= i && i + 2 < s.blocks.len(),
        s.blocks[i] is TableBasedImage,
        s.blocks[i + 1] == BlockView::GraphicControlExtension(g2),
        s.blocks[i + 2] is TableBasedImage,
        g1.disposal_spec() == DisposalMethod::RestoreToPrevious,
        g2.disposal_spec() == DisposalMethod::RestoreToPrevious,
        render_image(
            s.logical_screen_descriptor.canvas_width as nat,
            s.global_color_table,
            bg,
            canvas,
            Some(g1),
            s.blocks[i]->TableBasedImage_0,
        ) is Ok,
        render_image(
            s.logical_screen_descriptor.canvas_width as nat,
            s.global_color_table,
            bg,
            canvas,
            Some(g2),
            s.blocks[i + 2]->TableBasedImage_0,
        ) is Ok,
    ensures
        ({
            let cw = s.logical_screen_descriptor.canvas_width as nat;
            let f1 = render_image(cw, s.global_color_table, bg, canvas, Some(g1), s.blocks[i]->TableBasedImage_0)->Ok_0.0;
            let f2 = render_image(cw, s.global_color_table, bg, canvas, Some(g2), s.blocks[i + 2]->TableBasedImage_0)->Ok_0.0;
            compose_from(s, bg, i, canvas, Some(g1), frames) == compose_from(
                s,
                bg,
                i + 3,
                canvas,
                None,
                frames.push(f1).push(f2),
            )
        }),
{
    let cw = s.logical_screen_descriptor.canvas_width as nat;
    let f1 = render_image(cw, s.global_color_table, bg, canvas, Some(g1), s.blocks[i]->TableBasedImage_0)->Ok_0.0;
    restore_to_previous_hands_on_prior_canvas(s, bg, i, canvas, g1, frames);
    assert(compose_from(s, bg, i + 1, canvas, None, frames.push(f1)) == compose_from(
        s,
        bg,
        i + 2,
        canvas,
        Some(g2),
        frames.push(f1),
    ));
    restore_to_previous_hands_on_prior_canvas(s, bg, i + 2, canvas, g2, frames.push(f1));
}

/// Decoding is a function of the input: the same bytes give the same frames.
pub proof fn decoding_is_deterministic(a: Seq<u8>, b: Seq<u8>)
    requires
        a == b,
    ensures
        decoded(a) == decoded(b),
{
}

} // verus!
