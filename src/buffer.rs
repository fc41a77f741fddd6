use vstd::prelude::*;

use crate::error::{DecodeError, DecodeErrorView};
use crate::label::TRAILER;

verus! {

/// The byte at `p`, and the position after it.
pub open spec fn read_u8_at(d: Seq<u8>, p: int) -> Result<(u8, int), DecodeErrorView> {
    if 0 <= p < d.len() {
        Ok((d[p], p + 1))
    } else {
        Err(DecodeErrorView::UnexpectedEof)
    }
}

/// The value of two bytes read least significant first.
pub open spec fn le_u16(lo: u8, hi: u8) -> u16 {
    (lo as int + 256 * hi as int) as u16
}

/// The little-endian `u16` at `p`, and the position after it.
pub open spec fn read_u16_at(d: Seq<u8>, p: int) -> Result<(u16, int), DecodeErrorView> {
    if 0 <= p && p + 2 <= d.len() {
        Ok((le_u16(d[p], d[p + 1]), p + 2))
    } else {
        Err(DecodeErrorView::UnexpectedEof)
    }
}

/// The `n` bytes at `p`, and the position after them.
pub open spec fn read_bytes_at(d: Seq<u8>, p: int, n: int) -> Result<(Seq<u8>, int), DecodeErrorView> {
    if 0 <= p && 0 <= n && p + n <= d.len() {
        Ok((d.subrange(p, p + n), p + n))
    } else {
        Err(DecodeErrorView::UnexpectedEof)
    }
}

/// Whether the stream is over at `p`: past the last byte, or on a final trailer byte.
pub open spec fn at_end_at(d: Seq<u8>, p: int) -> bool {
    p >= d.len() || (p == d.len() - 1 && d[p] == TRAILER)
}

/// A read cursor over an owned byte buffer. Reads that succeed advance it;
/// reads that fail leave it where it was.
#[derive(Debug)]
pub struct Buffer {
    cursor: usize,
    data: Vec<u8>,
}

impl Buffer {
    /// The cursor never passes the end of the data.
    #[verifier::type_invariant]
    spec fn cursor_in_data(&self) -> bool {
        self.cursor <= self.data@.len()
    }

    /// The bytes being read.
    pub closed spec fn bytes(&self) -> Seq<u8> {
        self.data@
    }

    /// The offset of the next byte to read.
    pub closed spec fn pos(&self) -> int {
        self.cursor as int
    }

    /// A cursor at the start of `data`.
    pub fn new(data: Vec<u8>) -> (r: Self)
        ensures
            r.bytes() == data@,
            r.pos() == 0,
            r.pos() <= r.bytes().len(),
    {
        Self { cursor: 0, data }
    }

    /// The offset of the next byte to read.
    pub fn position(&self) -> (r: usize)
        ensures
            r == self.pos(),
            r <= self.bytes().len(),
    {
        proof {
            use_type_invariant(self);
        }
        self.cursor
    }

    /// Reads one byte.
    pub fn next(&mut self) -> (r: Result<u8, DecodeError>)
        ensures
            final(self).bytes() == old(self).bytes(),
            final(self).pos() <= final(self).bytes().len(),
            match read_u8_at(old(self).bytes(), old(self).pos()) {
                Ok((b, q)) => r == Ok::<u8, DecodeError>(b) && final(self).pos() == q,
                Err(e) => r matches Err(x) && x@ == e && final(self).pos() == old(self).pos(),
            },
    {
        proof {
            use_type_invariant(&*self);
        }
        if self.cursor < self.data.len() {
            let b = self.data[self.cursor];
            self.cursor = self.cursor + 1;
            Ok(b)
        } else {
            Err(DecodeError::UnexpectedEof)
        }
    }

    /// Matches the literal `bytes` at the cursor and steps over it.
    #[verifier::loop_isolation(false)]
    pub fn expect<const N: usize>(&mut self, bytes: [u8; N]) -> (r: Result<(), DecodeError>)
        ensures
            final(self).bytes() == old(self).bytes(),
            final(self).pos() <= final(self).bytes().len(),
            match read_bytes_at(old(self).bytes(), old(self).pos(), N as int) {
                Ok((s, q)) => if s == bytes@ {
                    r is Ok && final(self).pos() == q
                } else {
                    (r matches Err(x) && x@ == DecodeErrorView::UnexpectedLiteral {
                        expected: bytes@,
                        found: s,
                        at: old(self).pos() as usize,
                    }) && final(self).pos() == old(self).pos()
                },
                Err(e) => r matches Err(x) && x@ == e && final(self).pos() == old(self).pos(),
            },
    {
        proof {
            use_type_invariant(&*self);
        }
        if N > self.data.len() - self.cursor {
            return Err(DecodeError::UnexpectedEof);
        }
        let found = self.copy_range(N);
        let mut i: usize = 0;
        while i < N
            invariant
                i <= N,
                bytes@.len() == N,
                found@.len() == N,
                forall|j: int| 0 <= j < i ==> found@[j] == bytes@[j],
            decreases N - i,
        {
            if bytes[i] != found[i] {
                let mut expected: Vec<u8> = Vec::with_capacity(N);
                let mut k: usize = 0;
                while k < N
                    invariant
                        k <= N,
                        bytes@.len() == N,
                        expected@ == bytes@.take(k as int),
                    decreases N - k,
                {
                    expected.push(bytes[k]);
                    k = k + 1;
                    assert(expected@ =~= bytes@.take(k as int));
                }
                assert(expected@ =~= bytes@);
                assert(found@ != bytes@) by {
                    assert(found@[i as int] != bytes@[i as int]);
                }
                return Err(DecodeError::UnexpectedLiteral { expected, found, at: self.cursor });
            }
            i = i + 1;
        }
        assert(found@ =~= bytes@);
        self.cursor = self.cursor + N;
        Ok(())
    }

    /// A copy of the `n` bytes at the cursor, which must all be there.
    fn copy_range(&self, n: usize) -> (r: Vec<u8>)
        requires
            self.pos() + n <= self.bytes().len(),
        ensures
            r@ == self.bytes().subrange(self.pos(), self.pos() + n),
    {
        proof {
            use_type_invariant(self);
        }
        let mut out: Vec<u8> = Vec::with_capacity(n);
        let len = self.data.len();
        let mut i: usize = 0;
        while i < n
            invariant
                i <= n,
                len == self.data@.len(),
                self.cursor + n <= self.data@.len(),
                out@ == self.data@.subrange(self.cursor as int, self.cursor + i),
            decreases n - i,
        {
            out.push(self.data[self.cursor + i]);
            i = i + 1;
            assert(out@ =~= self.data@.subrange(self.cursor as int, self.cursor + i));
        }
        out
    }

    /// Reads a little-endian `u16`.
    pub fn read_u16(&mut self) -> (r: Result<u16, DecodeError>)
        ensures
            final(self).bytes() == old(self).bytes(),
            final(self).pos() <= final(self).bytes().len(),
            match read_u16_at(old(self).bytes(), old(self).pos()) {
                Ok((v, q)) => r == Ok::<u16, DecodeError>(v) && final(self).pos() == q,
                Err(e) => r matches Err(x) && x@ == e && final(self).pos() == old(self).pos(),
            },
    {
        proof {
            use_type_invariant(&*self);
        }
        if 2 > self.data.len() - self.cursor {
            return Err(DecodeError::UnexpectedEof);
        }
        let lo = self.data[self.cursor];
        let hi = self.data[self.cursor + 1];
        self.cursor = self.cursor + 2;
        Ok(lo as u16 + (hi as u16) * 256)
    }

    /// Copies out the next `bytes` bytes.
    pub fn read_slice(&mut self, bytes: usize) -> (r: Result<Vec<u8>, DecodeError>)
        ensures
            final(self).bytes() == old(self).bytes(),
            final(self).pos() <= final(self).bytes().len(),
            match read_bytes_at(old(self).bytes(), old(self).pos(), bytes as int) {
                Ok((s, q)) => r matches Ok(v) && v@ == s && final(self).pos() == q,
                Err(e) => r matches Err(x) && x@ == e && final(self).pos() == old(self).pos(),
            },
    {
        proof {
            use_type_invariant(&*self);
        }
        if bytes > self.data.len() - self.cursor {
            return Err(DecodeError::UnexpectedEof);
        }
        let mut out: Vec<u8> = Vec::with_capacity(bytes);
        let len = self.data.len();
        let mut i: usize = 0;
        while i < bytes
            invariant
                i <= bytes,
                len == self.data@.len(),
                self.cursor + bytes <= self.data@.len(),
                out@ == self.data@.subrange(self.cursor as int, self.cursor + i),
            decreases bytes - i,
        {
            out.push(self.data[self.cursor + i]);
            i = i + 1;
            assert(out@ =~= self.data@.subrange(self.cursor as int, self.cursor + i));
        }
        self.cursor = self.cursor + bytes;
        Ok(out)
    }

    /// True past the last byte, or on a final byte that is the trailer.
    pub fn at_end(&self) -> (r: bool)
        ensures
            r == at_end_at(self.bytes(), self.pos()),
    {
        proof {
            use_type_invariant(self);
        }
        self.cursor >= self.data.len() || (self.cursor == self.data.len() - 1
            && self.data[self.cursor] == TRAILER)
    }
}

} // verus!
