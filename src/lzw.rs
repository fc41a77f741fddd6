use vstd::arithmetic::power2::{lemma2_to64, lemma_pow2_strictly_increases, pow2};
use vstd::bits::lemma_usize_shl_is_mul;
use vstd::prelude::*;

use crate::bitstream::{blocks_view, concat_blocks, code_at, BitStream, MAX_CODE_WIDTH};
use crate::error::{DecodeError, DecodeErrorView};
use crate::grammar::{build_code_table, initial_code_table};

verus! {

/// Most entries the code table may hold between two clear codes.
pub const MAX_TABLE_ENTRIES: usize = 4096;

/// The clear code for minimum code size `m`.
pub open spec fn clear_code(m: u8) -> nat {
    pow2(m as nat)
}

/// The end-of-information code for minimum code size `m`.
pub open spec fn eoi_code(m: u8) -> nat {
    pow2(m as nat) + 1
}

/// The width of the first code: `m + 1` bits, at most twelve.
pub open spec fn start_width(m: u8) -> nat {
    if m < 12 {
        (m + 1) as nat
    } else {
        12
    }
}

/// Where the decompressor stands between two codes.
pub struct LzwState {
    /// The code table; entry `i` is the index sequence that code `i` stands for.
    pub table: Seq<Seq<usize>>,
    /// The last code read since the last clear code, if any.
    pub prev: Option<usize>,
    /// The width of the next code.
    pub width: nat,
    /// The colour indices produced so far.
    pub out: Seq<usize>,
    /// Whether a clear code has been read.
    pub started: bool,
}

/// What one code does: either the decompressor goes on, or it stops with its output.
pub enum LzwStep {
    Continue(LzwState),
    Finished(Seq<usize>),
}

/// The state before the first code.
pub open spec fn lzw_initial(m: u8) -> LzwState {
    LzwState { table: Seq::empty(), prev: None, width: start_width(m), out: Seq::empty(), started: false }
}

/// The effect of code `c` on state `s`.
pub open spec fn lzw_step(m: u8, s: LzwState, c: nat) -> Result<LzwStep, DecodeErrorView> {
    if c == clear_code(m) {
        Ok(
            LzwStep::Continue(
                LzwState {
                    table: initial_code_table(clear_code(m) + 2),
                    prev: None,
                    width: (m + 1) as nat,
                    out: s.out,
                    started: true,
                },
            ),
        )
    } else if !s.started {
        Err(DecodeErrorView::InvalidLzwCode)
    } else if c == eoi_code(m) {
        Ok(LzwStep::Finished(s.out))
    } else {
        match s.prev {
            None => if c < clear_code(m) {
                Ok(LzwStep::Continue(LzwState { out: s.out.push(c as usize), prev: Some(c as usize), ..s }))
            } else {
                Err(DecodeErrorView::InvalidLzwCode)
            },
            Some(p) => if c <= s.table.len() {
                let entry = if c < s.table.len() {
                    s.table[c as int]
                } else {
                    s.table[p as int].push(s.table[p as int][0])
                };
                let added = s.table.len() < 4096;
                let table = if added {
                    s.table.push(s.table[p as int].push(entry[0]))
                } else {
                    s.table
                };
                let width = if added && table.len() == pow2(s.width) && s.width < 12 {
                    s.width + 1
                } else {
                    s.width
                };
                Ok(
                    LzwStep::Continue(
                        LzwState { table, prev: Some(c as usize), width, out: s.out + entry, started: true },
                    ),
                )
            } else {
                Err(DecodeErrorView::InvalidLzwCode)
            },
        }
    }
}

/// Runs the decompressor from bit `pos` of `d` in state `s` until the end
/// code, an error, or too few bits for the next code.
pub open spec fn lzw_run(m: u8, d: Seq<u8>, pos: int, s: LzwState) -> Result<Seq<usize>, DecodeErrorView>
    decreases d.len() * 8 - pos,
{
    if s.width == 0 || pos + s.width > d.len() * 8 {
        Ok(s.out)
    } else {
        match lzw_step(m, s, code_at(d, pos, s.width)) {
            Ok(LzwStep::Continue(next)) => lzw_run(m, d, pos + s.width, next),
            Ok(LzwStep::Finished(out)) => Ok(out),
            Err(e) => Err(e),
        }
    }
}

/// The colour indices that the LZW data `d` stands for, with minimum code size `m`.
pub open spec fn lzw_decoded(m: u8, d: Seq<u8>) -> Result<Seq<usize>, DecodeErrorView> {
    lzw_run(m, d, 0, lzw_initial(m))
}

/// The views of a code table.
pub open spec fn table_view(t: Seq<Vec<usize>>) -> Seq<Seq<usize>> {
    t.map_values(|v: Vec<usize>| v@)
}

/// A well-formed state: the table is in its bounds and no entry is empty.
pub open spec fn lzw_state_wf(m: u8, s: LzwState) -> bool {
    &&& 1 <= s.width <= 12
    &&& s.table.len() <= 4096
    &&& forall|i: int| 0 <= i < s.table.len() ==> #[trigger] s.table[i].len() > 0
    &&& s.prev matches Some(p) ==> p < s.table.len()
    &&& s.started ==> m < 12 && s.table.len() >= clear_code(m) + 2
}

fn copy_entry(e: &Vec<usize>) -> (r: Vec<usize>)
    ensures
        r@ == e@,
{
    let mut r: Vec<usize> = Vec::with_capacity(e.len());
    let mut i: usize = 0;
    while i < e.len()
        invariant
            i <= e@.len(),
            r@ == e@.take(i as int),
        decreases e@.len() - i,
    {
        r.push(e[i]);
        i = i + 1;
        assert(r@ =~= e@.take(i as int));
    }
    assert(e@.take(e@.len() as int) =~= e@);
    r
}

fn append_entry(out: &mut Vec<usize>, e: &Vec<usize>)
    ensures
        final(out)@ == old(out)@ + e@,
{
    let mut i: usize = 0;
    while i < e.len()
        invariant
            i <= e@.len(),
            out@ == old(out)@ + e@.take(i as int),
        decreases e@.len() - i,
    {
        out.push(e[i]);
        i = i + 1;
        assert(out@ =~= old(out)@ + e@.take(i as int));
    }
    assert(e@.take(e@.len() as int) =~= e@);
}

/// Decompresses the LZW data of one image, given as its data sub-blocks, to
/// colour indices.
pub fn decode_lzw(min_code: u8, image_data: &Vec<Vec<u8>>) -> (r: Result<Vec<usize>, DecodeError>)
    ensures
        match lzw_decoded(min_code, concat_blocks(blocks_view(image_data@))) {
            Ok(s) => r matches Ok(v) && v@ == s,
            Err(e) => r matches Err(x) && x@ == e,
        },
{
    let ghost m = min_code;
    let mut bits = BitStream::new(image_data);
    let ghost d = bits.bytes();
    proof {
        lemma2_to64();
    }
    // With a minimum code size of twelve or more the clear code does not fit
    // in a code, so no code read can equal the stand-in value 4096.
    let clear: usize = if min_code < 12 {
        proof {
            lemma_usize_shl_is_mul(1, min_code as usize);
        }
        1usize << min_code
    } else {
        MAX_TABLE_ENTRIES
    };
    let eoi = clear + 1;
    let mut table: Vec<Vec<usize>> = Vec::new();
    let mut prev: Option<usize> = None;
    let mut started = false;
    let mut width: usize = if min_code < 12 {
        min_code as usize + 1
    } else {
        MAX_CODE_WIDTH
    };
    let mut out: Vec<usize> = Vec::new();
    let ghost mut st = lzw_initial(m);
    assert(st.table =~= table_view(table@));
    while !bits.eof(width)
        invariant
            bits.wf(),
            bits.bytes() == d,
            d == concat_blocks(blocks_view(image_data@)),
            m == min_code,
            min_code < 12 ==> clear == pow2(min_code as nat),
            min_code >= 12 ==> clear == 4096 && !st.started,
            eoi == clear + 1,
            st.table == table_view(table@),
            st.prev == prev,
            st.width == width,
            st.out == out@,
            st.started == started,
            lzw_state_wf(m, st),
            lzw_run(m, d, bits.pos(), st) == lzw_decoded(m, d),
        decreases d.len() * 8 - bits.pos(),
    {
        let ghost pos = bits.pos();
        let c = match bits.next(width) {
            Ok(c) => c,
            Err(e) => return Err(e),
        };
        let ghost step = lzw_step(m, st, c as nat);
        proof {
            lemma2_to64();
            if m > 12 {
                lemma_pow2_strictly_increases(12, m as nat);
            }
            if m < 11 {
                lemma_pow2_strictly_increases(m as nat, 11);
            }
        }
        assert(lzw_run(m, d, pos, st) == match step {
            Ok(LzwStep::Continue(next)) => lzw_run(m, d, pos + st.width, next),
            Ok(LzwStep::Finished(o)) => Ok(o),
            Err(e) => Err(e),
        });
        if c == clear {
            table = build_code_table(clear);
            width = min_code as usize + 1;
            prev = None;
            started = true;
            proof {
                st = LzwState {
                    table: initial_code_table(clear_code(m) + 2),
                    prev: None,
                    width: (m + 1) as nat,
                    out: st.out,
                    started: true,
                };
                assert(step == Ok::<LzwStep, DecodeErrorView>(LzwStep::Continue(st)));
            }
            continue;
        }
        if !started {
            return Err(DecodeError::InvalidLzwCode);
        }
        if c == eoi {
            return Ok(out);
        }
        match prev {
            None => {
                if c < clear {
                    out.push(c);
                    prev = Some(c);
                    proof {
                        st = LzwState { out: st.out.push(c as usize), prev: Some(c as usize), ..st };
                        assert(step == Ok::<LzwStep, DecodeErrorView>(LzwStep::Continue(st)));
                    }
                } else {
                    return Err(DecodeError::InvalidLzwCode);
                }
            },
            Some(p) => {
                if c > table.len() {
                    return Err(DecodeError::InvalidLzwCode);
                }
                let entry = if c < table.len() {
                    copy_entry(&table[c])
                } else {
                    let mut e = copy_entry(&table[p]);
                    let k = table[p][0];
                    e.push(k);
                    e
                };
                let first = entry[0];
                append_entry(&mut out, &entry);
                if table.len() < MAX_TABLE_ENTRIES {
                    let mut fresh = copy_entry(&table[p]);
                    fresh.push(first);
                    table.push(fresh);
                    proof {
                        if width < 12 {
                            lemma_pow2_strictly_increases(width as nat, 12);
                        }
                        lemma_usize_shl_is_mul(1, width);
                    }
                    if table.len() == (1usize << width) && width < MAX_CODE_WIDTH {
                        width = width + 1;
                    }
                }
                prev = Some(c);
                proof {
                    let ghost nst = match step {
                        Ok(LzwStep::Continue(n)) => n,
                        _ => st,
                    };
                    assert(table_view(table@) =~= nst.table);
                    st = nst;
                }
            },
        }
    }
    Ok(out)
}

} // verus!
