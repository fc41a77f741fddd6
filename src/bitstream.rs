use vstd::arithmetic::div_mod::lemma_fundamental_div_mod_converse;
use vstd::arithmetic::power2::{lemma2_to64, lemma_pow2_strictly_increases, pow2};
use vstd::prelude::*;

use crate::error::DecodeError;

verus! {

/// Widest LZW code that GIF allows, in bits.
pub const MAX_CODE_WIDTH: usize = 12;

/// The data sub-blocks of one image, joined into one byte sequence.
pub open spec fn concat_blocks(blocks: Seq<Seq<u8>>) -> Seq<u8> {
    blocks.flatten()
}

/// The views of a list of byte vectors.
pub open spec fn blocks_view(blocks: Seq<Vec<u8>>) -> Seq<Seq<u8>> {
    blocks.map_values(|v: Vec<u8>| v@)
}

/// Bit `i` of `d`, counting from the least significant bit of the first byte.
pub open spec fn bit_at(d: Seq<u8>, i: int) -> u8 {
    (d[i / 8] >> ((i % 8) as u8)) & 1
}

/// The `w`-bit code that starts at bit `pos`, least significant bit first.
pub open spec fn code_at(d: Seq<u8>, pos: int, w: nat) -> nat
    decreases w,
{
    if w == 0 {
        0
    } else {
        code_at(d, pos, (w - 1) as nat) + bit_at(d, pos + w - 1) as nat * pow2((w - 1) as nat)
    }
}

/// Concatenates a list of data sub-blocks.
pub fn join_blocks(blocks: &Vec<Vec<u8>>) -> (r: Vec<u8>)
    ensures
        r@ == concat_blocks(blocks_view(blocks@)),
{
    let mut data: Vec<u8> = Vec::new();
    let mut i: usize = 0;
    while i < blocks.len()
        invariant
            i <= blocks@.len(),
            data@ == concat_blocks(blocks_view(blocks@.take(i as int))),
        decreases blocks@.len() - i,
    {
        let ghost before = data@;
        data.extend_from_slice(blocks[i].as_slice());
        proof {
            assert(data@ =~= before + blocks@[i as int]@);
            let t = blocks_view(blocks@.take(i as int));
            t.lemma_flatten_push(blocks@[i as int]@);
            assert(blocks_view(blocks@.take(i + 1)) =~= t.push(blocks@[i as int]@));
        }
        i = i + 1;
    }
    assert(blocks@.take(blocks@.len() as int) =~= blocks@);
    data
}

/// Reads codes of varying width, least significant bit first, from the
/// concatenated data sub-blocks of one image.
#[derive(Debug)]
pub struct BitStream {
    data: Vec<u8>,
    byte: usize,
    bit: usize,
}

impl BitStream {
    /// The bytes being read.
    pub closed spec fn bytes(&self) -> Seq<u8> {
        self.data@
    }

    /// The number of bits read so far.
    pub closed spec fn pos(&self) -> int {
        self.byte * 8 + self.bit
    }

    /// The cursor lies within the data.
    pub closed spec fn wf(&self) -> bool {
        &&& self.bit < 8
        &&& self.byte <= self.data@.len()
        &&& self.byte == self.data@.len() ==> self.bit == 0
    }

    /// A reader at the first bit of the joined sub-blocks.
    pub fn new(image_data: &Vec<Vec<u8>>) -> (r: BitStream)
        ensures
            r.wf(),
            r.pos() == 0,
            r.bytes() == concat_blocks(blocks_view(image_data@)),
    {
        BitStream { data: join_blocks(image_data), byte: 0, bit: 0 }
    }

    /// True when fewer than `bit_length` bits are left.
    pub fn eof(&self, bit_length: usize) -> (r: bool)
        requires
            self.wf(),
        ensures
            r == (self.pos() + bit_length > self.bytes().len() * 8),
    {
        let left = ((self.data.len() - self.byte) as u128) * 8 - self.bit as u128;
        (bit_length as u128) > left
    }

    /// Reads one bit.
    pub fn read_bit(&mut self) -> (r: u8)
        requires
            old(self).wf(),
            old(self).pos() < old(self).bytes().len() * 8,
        ensures
            final(self).wf(),
            final(self).bytes() == old(self).bytes(),
            final(self).pos() == old(self).pos() + 1,
            r == bit_at(old(self).bytes(), old(self).pos()),
            r <= 1,
    {
        proof {
            lemma_fundamental_div_mod_converse(self.pos(), 8, self.byte as int, self.bit as int);
        }
        let byte = self.data[self.byte];
        let shift = self.bit as u8;
        let r = (byte >> shift) & 1;
        assert(r <= 1) by (bit_vector)
            requires
                r == (byte >> shift) & 1,
        ;
        proof {
            // the byte index stays below the vector's length, which fits in usize
            assert(self.byte < self.data.len());
        }
        if self.bit == 7 {
            self.byte = self.byte + 1;
            self.bit = 0;
        } else {
            self.bit = self.bit + 1;
        }
        r
    }

    /// Reads a code of `bit_length` bits, or of twelve bits when more are asked.
    pub fn next(&mut self, bit_length: usize) -> (r: Result<usize, DecodeError>)
        requires
            old(self).wf(),
        ensures
            final(self).wf(),
            final(self).bytes() == old(self).bytes(),
            ({
                let w = if bit_length < 12 { bit_length as nat } else { 12nat };
                if old(self).pos() + w > old(self).bytes().len() * 8 {
                    r == Err::<usize, DecodeError>(DecodeError::UnexpectedEof)
                        && final(self).pos() == old(self).pos()
                } else {
                    code_at(old(self).bytes(), old(self).pos(), w) < 4096
                        && r == Ok::<usize, DecodeError>(code_at(old(self).bytes(), old(self).pos(), w) as usize)
                        && final(self).pos() == old(self).pos() + w
                }
            }),
            r matches Ok(c) ==> c < 4096,
    {
        let bit_length = if bit_length < MAX_CODE_WIDTH {
            bit_length
        } else {
            MAX_CODE_WIDTH
        };
        if self.eof(bit_length) {
            return Err(DecodeError::UnexpectedEof);
        }
        let ghost start = self.pos();
        let mut out: usize = 0;
        let mut weight: usize = 1;
        let mut i: usize = 0;
        proof {
            lemma2_to64();
        }
        while i < bit_length
            invariant
                self.wf(),
                self.bytes() == old(self).bytes(),
                bit_length <= 12,
                i <= bit_length,
                start == old(self).pos(),
                start + bit_length <= self.bytes().len() * 8,
                self.pos() == start + i,
                weight == pow2(i as nat),
                out == code_at(self.bytes(), start, i as nat),
                out < pow2(i as nat),
            decreases bit_length - i,
        {
            proof {
                lemma2_to64();
            }
            let b = self.read_bit();
            proof {
                lemma_pow2_strictly_increases(i as nat, 12);
                assert(b as nat * weight <= weight) by (nonlinear_arith)
                    requires
                        b <= 1,
                ;
            }
            out = out + (b as usize) * weight;
            weight = weight * 2;
            i = i + 1;
        }
        proof {
            if bit_length < 12 {
                lemma_pow2_strictly_increases(bit_length as nat, 12);
            }
        }
        Ok(out)
    }
}

} // verus!
