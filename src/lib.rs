//! A GIF89a decoder: a block-grammar parser, an LZW decompressor and a
//! frame compositor, each specified by contracts over mathematical models.
pub mod bitstream;
pub mod buffer;
pub mod decode;
pub mod error;
pub mod gif_data_stream;
pub mod grammar;
pub mod label;
pub mod laws;
pub mod lzw;

pub use bitstream::BitStream;
pub use buffer::Buffer;
pub use decode::Decoder;
pub use error::{DecodeError, DecodeErrorView};
