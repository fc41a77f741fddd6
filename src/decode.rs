use vstd::prelude::*;
use vstd::utf8::{decode_utf8, valid_utf8};

use crate::bitstream::{blocks_view, concat_blocks, join_blocks};
use crate::buffer::{at_end_at, le_u16, read_bytes_at, read_u8_at, Buffer};
use crate::error::{DecodeError, DecodeErrorView};
use crate::gif_data_stream::{
    block_views, composed, Block, BlockView, GifDataStream, StreamView, MAX_CANVAS_DIMENSION,
};
use crate::laws::{parsed_canvas_is_nonempty, parsed_global_palette_size};
use crate::grammar::{
    color_table_bytes, ApplicationExtension, ApplicationView, CommentExtension,
    GraphicControlExtension, ImageDescriptor, ImageView, LogicalScreenDescriptor,
    PlainTextExtension, PlainTextView, TableBasedImage,
};
use crate::label::{
    APPLICATION_EXTENSION, COMMENT_EXTENSION, EXTENSION, GRAPHIC_CONTROL_EXTENSION,
    IMAGE_DESCRIPTOR, PLAIN_TEXT_EXTENSION, TRAILER,
};

verus! {

/// Relies on `String::from_utf8`: it succeeds exactly on valid UTF-8, and
/// the string then holds the decoded characters.
#[verifier::external_body]
fn utf8_string(bytes: Vec<u8>) -> (r: Option<String>)
    ensures
        r is Some <==> valid_utf8(bytes@),
        r matches Some(s) ==> s@ == decode_utf8(bytes@),
{
    String::from_utf8(bytes).ok()
}

/// Matches the literal `lit` at `p`; the position after it.
pub open spec fn literal_at(d: Seq<u8>, p: int, lit: Seq<u8>) -> Result<int, DecodeErrorView> {
    match read_bytes_at(d, p, lit.len() as int) {
        Ok((s, q)) => if s == lit {
            Ok(q)
        } else {
            Err(DecodeErrorView::UnexpectedLiteral { expected: lit, found: s, at: p as usize })
        },
        Err(e) => Err(e),
    }
}

/// The text that bytes `b` encode, if they are valid UTF-8.
pub open spec fn text_of(b: Seq<u8>) -> Result<Seq<char>, DecodeErrorView> {
    if valid_utf8(b) {
        Ok(decode_utf8(b))
    } else {
        Err(DecodeErrorView::InvalidText)
    }
}

/// A list of data sub-blocks at `p`, each a length byte and that many bytes,
/// ended by a zero length; the position after the terminator.
pub open spec fn sub_blocks_at(d: Seq<u8>, p: int) -> Result<(Seq<Seq<u8>>, int), DecodeErrorView>
    decreases d.len() - p,
{
    if !(0 <= p < d.len()) {
        Err(DecodeErrorView::UnexpectedEof)
    } else if d[p] == 0 {
        Ok((Seq::empty(), p + 1))
    } else if p + 1 + d[p] > d.len() {
        Err(DecodeErrorView::UnexpectedEof)
    } else {
        match sub_blocks_at(d, p + 1 + d[p]) {
            Ok((rest, q)) => Ok((seq![d.subrange(p + 1, p + 1 + d[p])] + rest, q)),
            Err(e) => Err(e),
        }
    }
}

/// A logical screen descriptor made of its seven bytes.
pub open spec fn screen_of(h: Seq<u8>) -> LogicalScreenDescriptor {
    LogicalScreenDescriptor {
        canvas_width: le_u16(h[0], h[1]),
        canvas_height: le_u16(h[2], h[3]),
        packed_field: h[4],
        background_color_index: h[5],
        pixel_aspect_ratio: h[6],
    }
}

/// An image descriptor made of its nine bytes.
pub open spec fn descriptor_of(h: Seq<u8>) -> ImageDescriptor {
    ImageDescriptor {
        image_left: le_u16(h[0], h[1]),
        image_top: le_u16(h[2], h[3]),
        image_width: le_u16(h[4], h[5]),
        image_height: le_u16(h[6], h[7]),
        packed_field: h[8],
    }
}

/// A graphic control made of its four bytes.
pub open spec fn control_of(h: Seq<u8>) -> GraphicControlExtension {
    GraphicControlExtension {
        packed_field: h[0],
        delay_time: le_u16(h[1], h[2]),
        transparent_color_index: h[3],
    }
}

/// A plain text extension made of its twelve header bytes and its text.
pub open spec fn plain_text_of(h: Seq<u8>, text: Seq<u8>) -> PlainTextView {
    PlainTextView {
        text_grid_left_position: le_u16(h[0], h[1]),
        text_grid_top_position: le_u16(h[2], h[3]),
        text_grid_width: le_u16(h[4], h[5]),
        text_grid_height: le_u16(h[6], h[7]),
        character_cell_width: h[8],
        character_cell_height: h[9],
        text_foreground_color_index: h[10],
        text_background_color_index: h[11],
        plain_text_data: text,
    }
}

/// An application extension after its label: block size 11, an 8-byte
/// identifier, a 3-byte authentication code, then data sub-blocks.
pub open spec fn application_at(d: Seq<u8>, p: int) -> Result<(BlockView, int), DecodeErrorView> {
    match literal_at(d, p, seq![11u8]) {
        Err(e) => Err(e),
        Ok(q1) => match read_bytes_at(d, q1, 8) {
            Err(e) => Err(e),
            Ok((id, q2)) => match text_of(id) {
                Err(e) => Err(e),
                Ok(identifier) => match read_bytes_at(d, q2, 3) {
                    Err(e) => Err(e),
                    Ok((auth, q3)) => match sub_blocks_at(d, q3) {
                        Err(e) => Err(e),
                        Ok((bs, q4)) => Ok(
                            (
                                BlockView::ApplicationExtension(
                                    ApplicationView {
                                        identifier,
                                        authentication_code: auth,
                                        data: concat_blocks(bs),
                                    },
                                ),
                                q4,
                            ),
                        ),
                    },
                },
            },
        },
    }
}

/// A graphic control extension after its label: block size 4, four bytes,
/// and a terminator byte.
pub open spec fn graphic_control_at(d: Seq<u8>, p: int) -> Result<(BlockView, int), DecodeErrorView> {
    match literal_at(d, p, seq![4u8]) {
        Err(e) => Err(e),
        Ok(q1) => match read_bytes_at(d, q1, 5) {
            Err(e) => Err(e),
            Ok((h, q2)) => Ok((BlockView::GraphicControlExtension(control_of(h)), q2)),
        },
    }
}

/// A plain text extension after its label: block size 12, twelve header
/// bytes, then the text as data sub-blocks.
pub open spec fn plain_text_at(d: Seq<u8>, p: int) -> Result<(BlockView, int), DecodeErrorView> {
    match literal_at(d, p, seq![12u8]) {
        Err(e) => Err(e),
        Ok(q1) => match read_bytes_at(d, q1, 12) {
            Err(e) => Err(e),
            Ok((h, q2)) => match sub_blocks_at(d, q2) {
                Err(e) => Err(e),
                Ok((bs, q3)) => Ok((BlockView::PlainTextExtension(plain_text_of(h, concat_blocks(bs))), q3)),
            },
        },
    }
}

/// An extension with label `label`, from the byte after the label.
pub open spec fn extension_at(d: Seq<u8>, p: int, label: u8) -> Result<(BlockView, int), DecodeErrorView> {
    if label == APPLICATION_EXTENSION {
        application_at(d, p)
    } else if label == COMMENT_EXTENSION {
        match sub_blocks_at(d, p) {
            Err(e) => Err(e),
            Ok((bs, q)) => Ok((BlockView::CommentExtension(concat_blocks(bs)), q)),
        }
    } else if label == GRAPHIC_CONTROL_EXTENSION {
        graphic_control_at(d, p)
    } else if label == PLAIN_TEXT_EXTENSION {
        plain_text_at(d, p)
    } else {
        Err(DecodeErrorView::UnknownExtensionLabel(label))
    }
}

/// A colour table whose size field is in `packed`, if `present`.
pub open spec fn color_table_at(d: Seq<u8>, p: int, present: bool, packed: u8) -> Result<
    (Option<Seq<u8>>, int),
    DecodeErrorView,
> {
    if present {
        match read_bytes_at(d, p, color_table_bytes(packed) as int) {
            Err(e) => Err(e),
            Ok((t, q)) => Ok((Some(t), q)),
        }
    } else {
        Ok((None, p))
    }
}

/// An image after its separator: a descriptor, an optional local colour
/// table, the LZW minimum code size and data sub-blocks.
pub open spec fn image_at(d: Seq<u8>, p: int) -> Result<(BlockView, int), DecodeErrorView> {
    match read_bytes_at(d, p, 9) {
        Err(e) => Err(e),
        Ok((h, q1)) => {
            let desc = descriptor_of(h);
            match color_table_at(d, q1, desc.local_table_spec(), desc.packed_field) {
                Err(e) => Err(e),
                Ok((local, q2)) => match read_u8_at(d, q2) {
                    Err(e) => Err(e),
                    Ok((min_code, q3)) => match sub_blocks_at(d, q3) {
                        Err(e) => Err(e),
                        Ok((bs, q4)) => Ok(
                            (
                                BlockView::TableBasedImage(
                                    ImageView {
                                        image_descriptor: desc,
                                        local_color_table: local,
                                        lzw_minimum_code: min_code,
                                        image_data: bs,
                                    },
                                ),
                                q4,
                            ),
                        ),
                    },
                },
            }
        },
    }
}

/// The block at `p`, or `None` for the trailer; the position after it.
pub open spec fn block_at(d: Seq<u8>, p: int) -> Result<(Option<BlockView>, int), DecodeErrorView> {
    match read_u8_at(d, p) {
        Err(e) => Err(e),
        Ok((tag, q1)) => if tag == TRAILER {
            Ok((None, q1))
        } else if tag == EXTENSION {
            match read_u8_at(d, q1) {
                Err(e) => Err(e),
                Ok((label, q2)) => match extension_at(d, q2, label) {
                    Err(e) => Err(e),
                    Ok((b, q3)) => Ok((Some(b), q3)),
                },
            }
        } else if tag == IMAGE_DESCRIPTOR {
            match image_at(d, q1) {
                Err(e) => Err(e),
                Ok((b, q2)) => Ok((Some(b), q2)),
            }
        } else {
            Err(DecodeErrorView::UnknownBlockTag(tag))
        }
    }
}

/// A list of sub-blocks that parses ends after its start, within the data.
pub proof fn sub_blocks_advance(d: Seq<u8>, p: int)
    ensures
        sub_blocks_at(d, p) matches Ok((_, q)) ==> p < q <= d.len(),
    decreases d.len() - p,
{
    if 0 <= p < d.len() && d[p] != 0 && p + 1 + d[p] <= d.len() {
        sub_blocks_advance(d, p + 1 + d[p]);
    }
}

/// A block that parses ends after its start, within the data.
pub proof fn block_at_advances(d: Seq<u8>, p: int)
    ensures
        block_at(d, p) matches Ok((_, q)) ==> p < q <= d.len(),
{
    sub_blocks_advance(d, p + 2);
    sub_blocks_advance(d, p + 2 + 1 + 8 + 3);
    sub_blocks_advance(d, p + 2 + 1 + 12);
    if read_bytes_at(d, p + 1, 9) is Ok {
        let desc = descriptor_of(d.subrange(p + 1, p + 10));
        match color_table_at(d, p + 10, desc.local_table_spec(), desc.packed_field) {
            Ok((_, q)) => sub_blocks_advance(d, q + 1),
            Err(_) => {},
        }
    }
}

/// The blocks from `p` to the trailer or the end of the stream.
pub open spec fn blocks_from(d: Seq<u8>, p: int) -> Result<Seq<BlockView>, DecodeErrorView>
    decreases d.len() - p,
{
    if at_end_at(d, p) {
        Ok(Seq::empty())
    } else {
        match block_at(d, p) {
            Err(e) => Err(e),
            Ok((None, _)) => Ok(Seq::empty()),
            Ok((Some(b), q)) => {
                proof {
                    block_at_advances(d, p);
                }
                match blocks_from(d, q) {
                    Ok(rest) => Ok(seq![b] + rest),
                    Err(e) => Err(e),
                }
            },
        }
    }
}

/// The stream that the bytes of `d` from `p` on encode.
pub open spec fn parsed(d: Seq<u8>, p: int) -> Result<StreamView, DecodeErrorView> {
    match literal_at(d, p, seq![0x47u8, 0x49u8, 0x46u8]) {
        Err(e) => Err(e),
        Ok(q1) => match read_bytes_at(d, q1, 3) {
            Err(e) => Err(e),
            Ok((v, q2)) => match text_of(v) {
                Err(e) => Err(e),
                Ok(version) => match read_bytes_at(d, q2, 7) {
                    Err(e) => Err(e),
                    Ok((h, q3)) => {
                        let screen = screen_of(h);
                        if screen.canvas_width == 0 || screen.canvas_height == 0 {
                            Err(DecodeErrorView::EmptyCanvas)
                        } else if screen.canvas_width > MAX_CANVAS_DIMENSION
                            || screen.canvas_height > MAX_CANVAS_DIMENSION {
                            Err(DecodeErrorView::OversizedCanvas)
                        } else {
                            match color_table_at(d, q3, screen.global_table_spec(), screen.packed_field) {
                                Err(e) => Err(e),
                                Ok((global, q4)) => match blocks_from(d, q4) {
                                    Err(e) => Err(e),
                                    Ok(blocks) => Ok(
                                        StreamView {
                                            version,
                                            logical_screen_descriptor: screen,
                                            global_color_table: global,
                                            blocks,
                                        },
                                    ),
                                },
                            }
                        }
                    },
                },
            },
        },
    }
}

/// Reads data sub-blocks up to and including the zero-length terminator.
fn parse_sub_blocks(buffer: &mut Buffer) -> (r: Result<Vec<Vec<u8>>, DecodeError>)
    ensures
        final(buffer).bytes() == old(buffer).bytes(),
        match sub_blocks_at(old(buffer).bytes(), old(buffer).pos()) {
            Ok((bs, q)) => r matches Ok(v) && blocks_view(v@) == bs && final(buffer).pos() == q,
            Err(e) => r matches Err(x) && x@ == e,
        },
        r is Ok ==> old(buffer).pos() < final(buffer).pos() <= final(buffer).bytes().len(),
{
    let ghost d = buffer.bytes();
    let ghost start = buffer.pos();
    let mut blocks: Vec<Vec<u8>> = Vec::new();
    assert(blocks_view(blocks@) =~= Seq::<Seq<u8>>::empty());
    assert(sub_blocks_at(d, start) == match sub_blocks_at(d, buffer.pos()) {
        Ok((rest, q)) => Ok((blocks_view(blocks@) + rest, q)),
        Err(e) => Err(e),
    }) by {
        match sub_blocks_at(d, start) {
            Ok((rest, q)) => {
                assert(blocks_view(blocks@) + rest =~= rest);
            },
            Err(_) => {},
        }
    }
    loop
        invariant
            buffer.bytes() == d,
            d == old(buffer).bytes(),
            start == old(buffer).pos(),
            buffer.pos() >= start,
            sub_blocks_at(d, start) == match sub_blocks_at(d, buffer.pos()) {
                Ok((rest, q)) => Ok((blocks_view(blocks@) + rest, q)),
                Err(e) => Err(e),
            },
        decreases d.len() - buffer.pos(),
    {
        let n = match buffer.next() {
            Ok(n) => n,
            Err(e) => return Err(e),
        };
        if n == 0 {
            assert(blocks_view(blocks@) + Seq::<Seq<u8>>::empty() =~= blocks_view(blocks@));
            return Ok(blocks);
        }
        let b = match buffer.read_slice(n as usize) {
            Ok(b) => b,
            Err(e) => return Err(e),
        };
        let ghost acc = blocks_view(blocks@);
        blocks.push(b);
        proof {
            assert(blocks_view(blocks@) =~= acc.push(b@));
            match sub_blocks_at(d, buffer.pos()) {
                Ok((rest, q)) => {
                    assert(acc + (seq![b@] + rest) =~= blocks_view(blocks@) + rest);
                },
                Err(_) => {},
            }
        }
    }
}

/// Reads the rest of an extension whose label was `label`.
fn parse_extension(buffer: &mut Buffer, label: u8) -> (r: Result<Block, DecodeError>)
    ensures
        final(buffer).bytes() == old(buffer).bytes(),
        match extension_at(old(buffer).bytes(), old(buffer).pos(), label) {
            Ok((bv, q)) => r matches Ok(b) && b@ == bv && final(buffer).pos() == q,
            Err(e) => r matches Err(x) && x@ == e,
        },
        r is Ok ==> old(buffer).pos() < final(buffer).pos() <= final(buffer).bytes().len(),
{
    if label == APPLICATION_EXTENSION {
        let lit = [11u8];
        assert(lit@ =~= seq![11u8]);
        match buffer.expect(lit) {
            Ok(()) => {},
            Err(e) => return Err(e),
        }
        let id = match buffer.read_slice(8) {
            Ok(v) => v,
            Err(e) => return Err(e),
        };
        let identifier = match utf8_string(id) {
            Some(s) => s,
            None => return Err(DecodeError::InvalidText),
        };
        let auth = match buffer.read_slice(3) {
            Ok(v) => v,
            Err(e) => return Err(e),
        };
        let authentication_code = [auth[0], auth[1], auth[2]];
        assert(authentication_code@ =~= auth@);
        let bs = match parse_sub_blocks(buffer) {
            Ok(v) => v,
            Err(e) => return Err(e),
        };
        let data = join_blocks(&bs);
        Ok(Block::ApplicationExtension(ApplicationExtension { identifier, authentication_code, data }))
    } else if label == COMMENT_EXTENSION {
        let bs = match parse_sub_blocks(buffer) {
            Ok(v) => v,
            Err(e) => return Err(e),
        };
        let data = join_blocks(&bs);
        Ok(Block::CommentExtension(CommentExtension { data }))
    } else if label == GRAPHIC_CONTROL_EXTENSION {
        let lit = [4u8];
        assert(lit@ =~= seq![4u8]);
        match buffer.expect(lit) {
            Ok(()) => {},
            Err(e) => return Err(e),
        }
        let h = match buffer.read_slice(5) {
            Ok(v) => v,
            Err(e) => return Err(e),
        };
        Ok(
            Block::GraphicControlExtension(
                GraphicControlExtension {
                    packed_field: h[0],
                    delay_time: h[1] as u16 + (h[2] as u16) * 256,
                    transparent_color_index: h[3],
                },
            ),
        )
    } else if label == PLAIN_TEXT_EXTENSION {
        let lit = [12u8];
        assert(lit@ =~= seq![12u8]);
        match buffer.expect(lit) {
            Ok(()) => {},
            Err(e) => return Err(e),
        }
        let h = match buffer.read_slice(12) {
            Ok(v) => v,
            Err(e) => return Err(e),
        };
        let bs = match parse_sub_blocks(buffer) {
            Ok(v) => v,
            Err(e) => return Err(e),
        };
        let plain_text_data = join_blocks(&bs);
        Ok(
            Block::PlainTextExtension(
                PlainTextExtension {
                    text_grid_left_position: h[0] as u16 + (h[1] as u16) * 256,
                    text_grid_top_position: h[2] as u16 + (h[3] as u16) * 256,
                    text_grid_width: h[4] as u16 + (h[5] as u16) * 256,
                    text_grid_height: h[6] as u16 + (h[7] as u16) * 256,
                    character_cell_width: h[8],
                    character_cell_height: h[9],
                    text_foreground_color_index: h[10],
                    text_background_color_index: h[11],
                    plain_text_data,
                },
            ),
        )
    } else {
        Err(DecodeError::UnknownExtensionLabel(label))
    }
}

/// Reads a colour table of the size that `packed` gives, if `present`.
fn parse_color_table_bytes(buffer: &mut Buffer, present: bool, size: usize) -> (r: Result<
    Option<Vec<u8>>,
    DecodeError,
>)
    ensures
        final(buffer).bytes() == old(buffer).bytes(),
        present ==> match read_bytes_at(old(buffer).bytes(), old(buffer).pos(), size as int) {
            Ok((t, q)) => r matches Ok(Some(v)) && v@ == t && final(buffer).pos() == q,
            Err(e) => r matches Err(x) && x@ == e,
        },
        !present ==> (r matches Ok(None) && final(buffer).pos() == old(buffer).pos()),
{
    if present {
        match buffer.read_slice(size) {
            Ok(v) => Ok(Some(v)),
            Err(e) => Err(e),
        }
    } else {
        Ok(None)
    }
}

/// Reads the rest of an image after its separator.
fn parse_image(buffer: &mut Buffer) -> (r: Result<TableBasedImage, DecodeError>)
    ensures
        final(buffer).bytes() == old(buffer).bytes(),
        match image_at(old(buffer).bytes(), old(buffer).pos()) {
            Ok((bv, q)) => r matches Ok(t) && BlockView::TableBasedImage(t@) == bv && final(buffer).pos() == q,
            Err(e) => r matches Err(x) && x@ == e,
        },
        r is Ok ==> old(buffer).pos() < final(buffer).pos() <= final(buffer).bytes().len(),
{
    let h = match buffer.read_slice(9) {
        Ok(v) => v,
        Err(e) => return Err(e),
    };
    let image_descriptor = ImageDescriptor {
        image_left: h[0] as u16 + (h[1] as u16) * 256,
        image_top: h[2] as u16 + (h[3] as u16) * 256,
        image_width: h[4] as u16 + (h[5] as u16) * 256,
        image_height: h[6] as u16 + (h[7] as u16) * 256,
        packed_field: h[8],
    };
    let local_color_table = match parse_color_table_bytes(
        buffer,
        image_descriptor.local_color_table_flag(),
        image_descriptor.local_color_table_size(),
    ) {
        Ok(t) => t,
        Err(e) => return Err(e),
    };
    let lzw_minimum_code = match buffer.next() {
        Ok(b) => b,
        Err(e) => return Err(e),
    };
    let image_data = match parse_sub_blocks(buffer) {
        Ok(v) => v,
        Err(e) => return Err(e),
    };
    Ok(TableBasedImage { image_descriptor, local_color_table, lzw_minimum_code, image_data })
}

/// Reads one block, or the trailer (`None`).
fn parse_block(buffer: &mut Buffer) -> (r: Result<Option<Block>, DecodeError>)
    ensures
        final(buffer).bytes() == old(buffer).bytes(),
        match block_at(old(buffer).bytes(), old(buffer).pos()) {
            Ok((None, q)) => r matches Ok(None) && final(buffer).pos() == q,
            Ok((Some(bv), q)) => r matches Ok(Some(b)) && b@ == bv && final(buffer).pos() == q,
            Err(e) => r matches Err(x) && x@ == e,
        },
        r is Ok ==> old(buffer).pos() < final(buffer).pos() <= final(buffer).bytes().len(),
{
    let tag = match buffer.next() {
        Ok(b) => b,
        Err(e) => return Err(e),
    };
    if tag == TRAILER {
        Ok(None)
    } else if tag == EXTENSION {
        let label = match buffer.next() {
            Ok(b) => b,
            Err(e) => return Err(e),
        };
        match parse_extension(buffer, label) {
            Ok(b) => Ok(Some(b)),
            Err(e) => Err(e),
        }
    } else if tag == IMAGE_DESCRIPTOR {
        match parse_image(buffer) {
            Ok(t) => Ok(Some(Block::TableBasedImage(t))),
            Err(e) => Err(e),
        }
    } else {
        Err(DecodeError::UnknownBlockTag(tag))
    }
}

/// Reads blocks up to the trailer or the end of the stream.
fn parse_blocks(buffer: &mut Buffer) -> (r: Result<Vec<Block>, DecodeError>)
    ensures
        final(buffer).bytes() == old(buffer).bytes(),
        match blocks_from(old(buffer).bytes(), old(buffer).pos()) {
            Ok(bs) => r matches Ok(v) && block_views(v@) == bs,
            Err(e) => r matches Err(x) && x@ == e,
        },
{
    let ghost d = buffer.bytes();
    let ghost start = buffer.pos();
    let mut blocks: Vec<Block> = Vec::new();
    assert(block_views(blocks@) =~= Seq::<BlockView>::empty());
    assert(blocks_from(d, start) == match blocks_from(d, buffer.pos()) {
        Ok(rest) => Ok(block_views(blocks@) + rest),
        Err(e) => Err(e),
    }) by {
        match blocks_from(d, start) {
            Ok(rest) => {
                assert(block_views(blocks@) + rest =~= rest);
            },
            Err(_) => {},
        }
    }
    loop
        invariant
            buffer.bytes() == d,
            d == old(buffer).bytes(),
            start == old(buffer).pos(),
            blocks_from(d, start) == match blocks_from(d, buffer.pos()) {
                Ok(rest) => Ok(block_views(blocks@) + rest),
                Err(e) => Err(e),
            },
        decreases d.len() - buffer.pos(),
    {
        if buffer.at_end() {
            assert(block_views(blocks@) + Seq::<BlockView>::empty() =~= block_views(blocks@));
            return Ok(blocks);
        }
        match parse_block(buffer) {
            Err(e) => return Err(e),
            Ok(None) => {
                assert(block_views(blocks@) + Seq::<BlockView>::empty() =~= block_views(blocks@));
                return Ok(blocks);
            },
            Ok(Some(b)) => {
                let ghost acc = block_views(blocks@);
                blocks.push(b);
                proof {
                    assert(block_views(blocks@) =~= acc.push(b@));
                    match blocks_from(d, buffer.pos()) {
                        Ok(rest) => {
                            assert(acc + (seq![b@] + rest) =~= block_views(blocks@) + rest);
                        },
                        Err(_) => {},
                    }
                }
            },
        }
    }
}

/// The decoder processes a GIF data stream sequentially: it parses the
/// blocks and sub-blocks, and composites the images into frames.
#[derive(Debug)]
pub struct Decoder {
    buffer: Buffer,
}

impl Decoder {
    /// The bytes being decoded.
    pub closed spec fn bytes(&self) -> Seq<u8> {
        self.buffer.bytes()
    }

    /// Where parsing starts.
    pub closed spec fn pos(&self) -> int {
        self.buffer.pos()
    }

    /// A decoder for the stream held in `data`.
    pub fn new(data: Vec<u8>) -> (r: Self)
        ensures
            r.bytes() == data@,
            r.pos() == 0,
    {
        Self { buffer: Buffer::new(data) }
    }

    /// Parses the data stream into its header, screen, palette and blocks.
    pub fn parse(&mut self) -> (r: Result<GifDataStream, DecodeError>)
        ensures
            final(self).bytes() == old(self).bytes(),
            match parsed(old(self).bytes(), old(self).pos()) {
                Ok(sv) => r matches Ok(s) && s@ == sv,
                Err(e) => r matches Err(x) && x@ == e,
            },
            r matches Ok(s) ==> s.logical_screen_descriptor.canvas_width > 0
                && s.logical_screen_descriptor.canvas_height > 0,
            r matches Ok(s) ==> (s.global_color_table matches Some(g) ==> g@.len()
                == color_table_bytes(s.logical_screen_descriptor.packed_field)),
    {
        proof {
            if parsed(self.bytes(), self.pos()) is Ok {
                parsed_canvas_is_nonempty(self.bytes(), self.pos());
                if parsed(self.bytes(), self.pos())->Ok_0.global_color_table is Some {
                    parsed_global_palette_size(self.bytes(), self.pos());
                }
            }
        }
        let signature = [0x47u8, 0x49u8, 0x46u8];
        assert(signature@ =~= seq![0x47u8, 0x49u8, 0x46u8]);
        match self.buffer.expect(signature) {
            Ok(()) => {},
            Err(e) => return Err(e),
        }
        let v = match self.buffer.read_slice(3) {
            Ok(v) => v,
            Err(e) => return Err(e),
        };
        let version = match utf8_string(v) {
            Some(s) => s,
            None => return Err(DecodeError::InvalidText),
        };
        let h = match self.buffer.read_slice(7) {
            Ok(v) => v,
            Err(e) => return Err(e),
        };
        let logical_screen_descriptor = LogicalScreenDescriptor {
            canvas_width: h[0] as u16 + (h[1] as u16) * 256,
            canvas_height: h[2] as u16 + (h[3] as u16) * 256,
            packed_field: h[4],
            background_color_index: h[5],
            pixel_aspect_ratio: h[6],
        };
        let w = logical_screen_descriptor.canvas_width;
        let ht = logical_screen_descriptor.canvas_height;
        if w == 0 || ht == 0 {
            return Err(DecodeError::EmptyCanvas);
        }
        if w > MAX_CANVAS_DIMENSION || ht > MAX_CANVAS_DIMENSION {
            return Err(DecodeError::OversizedCanvas);
        }
        let global_color_table = match parse_color_table_bytes(
            &mut self.buffer,
            logical_screen_descriptor.global_color_table_flag(),
            logical_screen_descriptor.global_color_table_size(),
        ) {
            Ok(t) => t,
            Err(e) => return Err(e),
        };
        let blocks = match parse_blocks(&mut self.buffer) {
            Ok(b) => b,
            Err(e) => return Err(e),
        };
        Ok(GifDataStream { version, logical_screen_descriptor, global_color_table, blocks })
    }

    /// Parses the stream and composites its frames, keeping only whether
    /// both succeeded.
    pub fn decode(&mut self) -> (r: Result<(), DecodeError>)
        ensures
            match parsed(old(self).bytes(), old(self).pos()) {
                Ok(sv) => match composed(sv) {
                    Ok(_) => r is Ok,
                    Err(e) => r matches Err(x) && x@ == e,
                },
                Err(e) => r matches Err(x) && x@ == e,
            },
    {
        let gif = match self.parse() {
            Ok(g) => g,
            Err(e) => return Err(e),
        };
        match gif.decompress() {
            Ok(_) => Ok(()),
            Err(e) => Err(e),
        }
    }
}

} // verus!
