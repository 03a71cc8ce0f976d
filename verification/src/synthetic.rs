//! A generated test pattern that needs no input: a flat grey picture with a
//! colour gradient that scrolls by one step with every frame.

use vstd::prelude::*;
use vstd::arithmetic::div_mod::lemma_fundamental_div_mod_converse;
use crate::frame::{chroma_len, frame_len, luma_len, valid_dims, DimsView, FrameDims};

verus! {

/// The value of every luma byte of the pattern: mid-grey.
pub const SYNTHETIC_LUMA: u8 = 128;

/// The U sample of pattern number `count` in chroma column `x`.
pub open spec fn synthetic_u(count: nat, x: nat) -> u8 {
    ((2 * x + count) % 256) as u8
}

/// The V sample of pattern number `count` in chroma row `y`.
pub open spec fn synthetic_v(count: nat, y: nat) -> u8 {
    ((2 * y + count) % 256) as u8
}

/// Byte `j` of the frame that holds pattern number `count`: mid-grey in the
/// luma plane, a horizontal gradient in the U plane and a vertical gradient
/// in the V plane.
pub open spec fn synthetic_byte(d: DimsView, count: nat, j: int) -> u8 {
    let luma = luma_len(d.width, d.height) as int;
    let chroma = chroma_len(d.width, d.height) as int;
    let row_len = (d.width / 2) as int;
    if j < luma {
        SYNTHETIC_LUMA
    } else if j < luma + chroma {
        synthetic_u(count, ((j - luma) % row_len) as nat)
    } else {
        synthetic_v(count, ((j - luma - chroma) / row_len) as nat)
    }
}

/// The frame that holds pattern number `count`.
pub open spec fn synthetic_frame(d: DimsView, count: nat) -> Seq<u8> {
    Seq::new(frame_len(d.width, d.height), |j: int| synthetic_byte(d, count, j))
}

/// Fills the frame buffer with pattern number `count`. Returns `false`, and
/// leaves the buffer as it is, if the buffer does not have the length of a
/// frame of these dimensions.
pub fn fill_synthetic(dims: &FrameDims, count: u64, frame: &mut [u8]) -> (filled: bool)
    ensures
        filled <==> old(frame)@.len() == frame_len(dims@.width, dims@.height),
        filled ==> final(frame)@ == synthetic_frame(dims@, count as nat),
        !filled ==> final(frame)@ == old(frame)@,
{
    let luma = dims.luma_len();
    let chroma = dims.chroma_len();
    let total = dims.frame_len();
    if frame.len() != total {
        return false;
    }
    let row_len = (dims.width() / 2) as usize;
    let rows = (dims.height() / 2) as usize;
    let step = (count % 256) as usize;
    let ghost d = dims@;
    let ghost n = count as nat;
    proof {
        assert(rows * row_len == chroma) by (nonlinear_arith)
            requires
                chroma == row_len * rows,
        ;
    }
    let mut j: usize = 0;
    while j < luma
        invariant
            j <= luma,
            luma == luma_len(d.width, d.height),
            frame@.len() == luma + 2 * chroma,
            forall|i: int| 0 <= i < j ==> frame@[i] == synthetic_byte(d, n, i),
        decreases luma - j,
    {
        frame[j] = SYNTHETIC_LUMA;
        j = j + 1;
    }
    let mut y: usize = 0;
    while y < rows
        invariant
            y <= rows,
            valid_dims(d),
            luma == luma_len(d.width, d.height),
            chroma == chroma_len(d.width, d.height),
            row_len == d.width / 2,
            rows * row_len == chroma,
            rows <= 0x7fff_ffff,
            row_len <= 0x7fff_ffff,
            step == n % 256,
            frame@.len() == luma + 2 * chroma,
            forall|i: int| 0 <= i < luma + y * row_len ==> frame@[i] == synthetic_byte(d, n, i),
        decreases rows - y,
    {
        proof {
            lemma_row_start(y as int, rows as int, row_len as int);
        }
        let base = luma + y * row_len;
        let mut x: usize = 0;
        while x < row_len
            invariant
                x <= row_len,
                y < rows,
                valid_dims(d),
                luma == luma_len(d.width, d.height),
                chroma == chroma_len(d.width, d.height),
                row_len == d.width / 2,
                rows * row_len == chroma,
            rows <= 0x7fff_ffff,
            row_len <= 0x7fff_ffff,
                step == n % 256,
                frame@.len() == luma + 2 * chroma,
                base == luma + y * row_len,
                base + row_len <= luma + chroma,
                forall|i: int| 0 <= i < base + x ==> frame@[i] == synthetic_byte(d, n, i),
            decreases row_len - x,
        {
            let v = (((2 * x) % 256 + step) % 256) as u8;
            proof {
                lemma_fundamental_div_mod_converse(
                    y * row_len + x,
                    row_len as int,
                    y as int,
                    x as int,
                );
                assert(synthetic_byte(d, n, base + x) == v);
            }
            frame[base + x] = v;
            x = x + 1;
        }
        proof {
            assert((y + 1) * row_len == y * row_len + row_len) by (nonlinear_arith);
        }
        y = y + 1;
    }
    let mut y: usize = 0;
    while y < rows
        invariant
            y <= rows,
            valid_dims(d),
            luma == luma_len(d.width, d.height),
            chroma == chroma_len(d.width, d.height),
            row_len == d.width / 2,
            rows * row_len == chroma,
            rows <= 0x7fff_ffff,
            row_len <= 0x7fff_ffff,
            step == n % 256,
            frame@.len() == luma + 2 * chroma,
            forall|i: int|
                0 <= i < luma + chroma + y * row_len ==> frame@[i] == synthetic_byte(d, n, i),
        decreases rows - y,
    {
        proof {
            lemma_row_start(y as int, rows as int, row_len as int);
        }
        let base = luma + chroma + y * row_len;
        let v = (((2 * y) % 256 + step) % 256) as u8;
        let mut x: usize = 0;
        while x < row_len
            invariant
                x <= row_len,
                y < rows,
                valid_dims(d),
                luma == luma_len(d.width, d.height),
                chroma == chroma_len(d.width, d.height),
                row_len == d.width / 2,
                rows * row_len == chroma,
            rows <= 0x7fff_ffff,
            row_len <= 0x7fff_ffff,
                frame@.len() == luma + 2 * chroma,
                base == luma + chroma + y * row_len,
                base + row_len <= luma + 2 * chroma,
                v == synthetic_v(n, y as nat),
                forall|i: int| 0 <= i < base + x ==> frame@[i] == synthetic_byte(d, n, i),
            decreases row_len - x,
        {
            proof {
                lemma_fundamental_div_mod_converse(
                    y * row_len + x,
                    row_len as int,
                    y as int,
                    x as int,
                );
                assert(synthetic_byte(d, n, base + x) == v);
            }
            frame[base + x] = v;
            x = x + 1;
        }
        proof {
            assert((y + 1) * row_len == y * row_len + row_len) by (nonlinear_arith);
        }
        y = y + 1;
    }
    assert(frame@ =~= synthetic_frame(d, n));
    true
}

/// In the frame that holds pattern number `count`, every luma byte is
/// mid-grey, the U sample in chroma column `x` of any row is
/// `(2 * x + count) mod 256`, and the V sample in chroma row `y` of any
/// column is `(2 * y + count) mod 256`.
pub proof fn lemma_synthetic_samples(d: DimsView, count: nat, x: int, y: int)
    requires
        valid_dims(d),
        0 <= x < d.width / 2,
        0 <= y < d.height / 2,
    ensures
        forall|j: int|
            0 <= j < luma_len(d.width, d.height) ==> synthetic_frame(d, count)[j]
                == SYNTHETIC_LUMA,
        0 <= y * (d.width / 2) + x < chroma_len(d.width, d.height),
        synthetic_frame(d, count)[luma_len(d.width, d.height) + y * (d.width / 2) + x] == (2 * x
            + count) % 256,
        synthetic_frame(d, count)[luma_len(d.width, d.height) + chroma_len(d.width, d.height) + y
            * (d.width / 2) + x] == (2 * y + count) % 256,
{
    let row_len = (d.width / 2) as int;
    let rows = (d.height / 2) as int;
    lemma_row_start(y, rows, row_len);
    assert(rows * row_len == row_len * rows) by (nonlinear_arith);
    lemma_fundamental_div_mod_converse(y * row_len + x, row_len, y, x);
}

/// Row `y` of `rows` rows of `len` bytes starts and ends inside the rows.
proof fn lemma_row_start(y: int, rows: int, len: int)
    by (nonlinear_arith)
    requires
        0 <= y < rows,
        0 <= len,
    ensures
        0 <= y * len,
        y * len + len <= rows * len,
{
}

} // verus!
