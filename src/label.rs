use vstd::prelude::*;

verus! {

/// Introduces an extension block.
pub const EXTENSION: u8 = 0x21;

/// Labels an application extension.
pub const APPLICATION_EXTENSION: u8 = 0xFF;

/// Labels a comment extension.
pub const COMMENT_EXTENSION: u8 = 0xFE;

/// Labels a graphic control extension.
pub const GRAPHIC_CONTROL_EXTENSION: u8 = 0xF9;

/// Introduces an image descriptor.
pub const IMAGE_DESCRIPTOR: u8 = 0x2C;

/// Labels a plain text extension.
pub const PLAIN_TEXT_EXTENSION: u8 = 0x01;

/// Ends the data stream.
pub const TRAILER: u8 = 0x3B;

} // verus!
