use vstd::prelude::*;

verus! {

/// Everything that can go wrong while parsing or decompressing a stream.
#[derive(Debug, PartialEq, Eq)]
pub enum DecodeError {
    /// A read needed more bytes than the buffer holds.
    UnexpectedEof,
    /// A fixed literal did not match: the bytes expected, the bytes found,
    /// and the offset where the literal should start.
    UnexpectedLiteral { expected: Vec<u8>, found: Vec<u8>, at: usize },
    /// A byte in block position is neither an extension, an image nor the trailer.
    UnknownBlockTag(u8),
    /// An extension label that the grammar does not know.
    UnknownExtensionLabel(u8),
    /// A version or identifier field is not valid UTF-8.
    InvalidText,
    /// A palette is missing, is not made of whole triples, or an index misses it.
    InvalidPalette,
    /// An LZW code past the dictionary, or a code before the first clear code.
    InvalidLzwCode,
    /// The LZW output is shorter than the image's pixel count.
    TruncatedImage,
    /// The canvas is wider or taller than the supported maximum.
    OversizedCanvas,
    /// The canvas has no pixels.
    EmptyCanvas,
}

/// What an error holds.
pub enum DecodeErrorView {
    UnexpectedEof,
    UnexpectedLiteral { expected: Seq<u8>, found: Seq<u8>, at: usize },
    UnknownBlockTag(u8),
    UnknownExtensionLabel(u8),
    InvalidText,
    InvalidPalette,
    InvalidLzwCode,
    TruncatedImage,
    OversizedCanvas,
    EmptyCanvas,
}

impl View for DecodeError {
    type V = DecodeErrorView;

    open spec fn view(&self) -> DecodeErrorView {
        match self {
            DecodeError::UnexpectedEof => DecodeErrorView::UnexpectedEof,
            DecodeError::UnexpectedLiteral { expected, found, at } => DecodeErrorView::UnexpectedLiteral {
                expected: expected@,
                found: found@,
                at: *at,
            },
            DecodeError::UnknownBlockTag(t) => DecodeErrorView::UnknownBlockTag(*t),
            DecodeError::UnknownExtensionLabel(l) => DecodeErrorView::UnknownExtensionLabel(*l),
            DecodeError::InvalidText => DecodeErrorView::InvalidText,
            DecodeError::InvalidPalette => DecodeErrorView::InvalidPalette,
            DecodeError::InvalidLzwCode => DecodeErrorView::InvalidLzwCode,
            DecodeError::TruncatedImage => DecodeErrorView::TruncatedImage,
            DecodeError::OversizedCanvas => DecodeErrorView::OversizedCanvas,
            DecodeError::EmptyCanvas => DecodeErrorView::EmptyCanvas,
        }
    }
}

} // verus!
