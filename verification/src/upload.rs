//! The copy of a tightly packed frame into a texture whose rows are padded.
//!
//! A frame stores its rows back to back. A texture stores each luma row at a
//! stride of `pitch` bytes, which may exceed the width, and each chroma row
//! at a stride of `pitch / 2`. The luma plane comes first, the U plane starts
//! at `pitch * height`, and the V plane follows the U plane.

use vstd::prelude::*;
use vstd::arithmetic::div_mod::{
    lemma_div_pos_is_pos, lemma_fundamental_div_mod, lemma_fundamental_div_mod_converse,
    lemma_mod_pos_bound,
};
use crate::frame::{chroma_len, frame_len, luma_len, valid_dims, DimsView, FrameDims};

verus! {

/// The copy of one plane: `rows` rows of `row_len` bytes, packed in the
/// source from `src_off` on, stored in the destination from `dst_off` on at a
/// distance of `stride` bytes from row to row.
pub struct PlaneCopy {
    pub src_off: nat,
    pub row_len: nat,
    pub rows: nat,
    pub dst_off: nat,
    pub stride: nat,
}

/// Whether the copy `p` writes the destination byte `i`.
pub open spec fn plane_covers(p: PlaneCopy, i: int) -> bool {
    let k = i - p.dst_off;
    &&& 0 <= k
    &&& k / (p.stride as int) < p.rows
    &&& k % (p.stride as int) < p.row_len
}

/// The index in the source of the byte that the copy `p` writes to the
/// destination byte `i`.
pub open spec fn plane_source(p: PlaneCopy, i: int) -> int {
    let k = i - p.dst_off;
    p.src_off + (k / (p.stride as int)) * p.row_len + k % (p.stride as int)
}

/// The destination after the copy `p` from `src`: the bytes that the copy
/// covers come from the source, all others stay.
pub open spec fn with_plane(dst: Seq<u8>, src: Seq<u8>, p: PlaneCopy) -> Seq<u8> {
    Seq::new(
        dst.len(),
        |i: int|
            if plane_covers(p, i) {
                src[plane_source(p, i)]
            } else {
                dst[i]
            },
    )
}

/// Why a frame was not copied into a texture.
#[derive(Clone, Copy, Debug, PartialEq, Eq, Structural)]
pub enum UploadError {
    /// The frame does not have the length that its dimensions give.
    FrameLength,
    /// The pitch is smaller than the width.
    Pitch,
    /// The texture memory is too short for three planes at this pitch.
    TextureLength,
}

/// The number of bytes that the three planes take in a texture whose luma
/// rows are `pitch` bytes apart.
pub open spec fn texture_len(pitch: nat, height: nat) -> nat {
    pitch * height + 2 * ((pitch / 2) * (height / 2))
}

/// The copy of the luma plane: `height` rows of `width` bytes, `pitch` apart.
pub open spec fn luma_copy(d: DimsView, pitch: nat) -> PlaneCopy {
    PlaneCopy { src_off: 0, row_len: d.width, rows: d.height, dst_off: 0, stride: pitch }
}

/// The copy of the U plane: `height / 2` rows of `width / 2` bytes,
/// `pitch / 2` apart, behind the luma rows.
pub open spec fn u_copy(d: DimsView, pitch: nat) -> PlaneCopy {
    PlaneCopy {
        src_off: luma_len(d.width, d.height),
        row_len: d.width / 2,
        rows: d.height / 2,
        dst_off: pitch * d.height,
        stride: pitch / 2,
    }
}

/// The copy of the V plane: as the U plane, and directly behind it.
pub open spec fn v_copy(d: DimsView, pitch: nat) -> PlaneCopy {
    PlaneCopy {
        src_off: luma_len(d.width, d.height) + chroma_len(d.width, d.height),
        row_len: d.width / 2,
        rows: d.height / 2,
        dst_off: pitch * d.height + (pitch / 2) * (d.height / 2),
        stride: pitch / 2,
    }
}

/// The texture memory after the frame has been copied into it: the three
/// planes row by row at the texture's strides, the padding behind each row
/// as it was.
pub open spec fn uploaded(texture: Seq<u8>, frame: Seq<u8>, d: DimsView, pitch: nat) -> Seq<u8> {
    with_plane(
        with_plane(with_plane(texture, frame, luma_copy(d, pitch)), frame, u_copy(d, pitch)),
        frame,
        v_copy(d, pitch),
    )
}

/// Whether the texture byte `i` belongs to the picture, that is to one of the
/// three planes and not to the padding.
pub open spec fn in_picture(d: DimsView, pitch: nat, i: int) -> bool {
    ||| plane_covers(luma_copy(d, pitch), i)
    ||| plane_covers(u_copy(d, pitch), i)
    ||| plane_covers(v_copy(d, pitch), i)
}

/// The reason for which an upload is refused, if it is. The frame's length
/// is checked first, then the pitch, then the texture's length.
pub open spec fn upload_error(d: DimsView, frame: nat, pitch: nat, texture: nat) -> Option<
    UploadError,
> {
    if frame != frame_len(d.width, d.height) {
        Some(UploadError::FrameLength)
    } else if pitch < d.width {
        Some(UploadError::Pitch)
    } else if texture < texture_len(pitch, d.height) {
        Some(UploadError::TextureLength)
    } else {
        None
    }
}

/// Copies a tightly packed frame into texture memory whose luma rows are
/// `pitch` bytes apart, plane by plane and row by row. Refuses, and leaves
/// the texture as it is, if the lengths do not fit.
pub fn upload_frame(dims: &FrameDims, frame: &[u8], pitch: usize, texture: &mut [u8]) -> (r:
    Result<(), UploadError>)
    ensures
        match r {
            Ok(()) => {
                &&& upload_error(dims@, frame@.len(), pitch as nat, old(texture)@.len()) is None
                &&& final(texture)@ == uploaded(old(texture)@, frame@, dims@, pitch as nat)
            },
            Err(e) => {
                &&& upload_error(dims@, frame@.len(), pitch as nat, old(texture)@.len()) == Some(e)
                &&& final(texture)@ == old(texture)@
            },
        },
{
    let width = dims.width() as usize;
    let height = dims.height() as usize;
    let luma = dims.luma_len();
    let chroma = dims.chroma_len();
    if frame.len() != dims.frame_len() {
        return Err(UploadError::FrameLength);
    }
    if pitch < width {
        return Err(UploadError::Pitch);
    }
    let half_pitch = pitch / 2;
    let half_height = height / 2;
    proof {
        lemma_texture_bounds(pitch as nat, height as nat);
    }
    let luma_rows: u128 = (pitch as u128) * (height as u128);
    let chroma_rows: u128 = (half_pitch as u128) * (half_height as u128);
    if (texture.len() as u128) < luma_rows + 2 * chroma_rows {
        return Err(UploadError::TextureLength);
    }
    proof {
        assert(height * width == width * height) by (nonlinear_arith);
        assert(height * pitch == pitch * height) by (nonlinear_arith);
        assert(half_height * (width / 2) == (width / 2) * half_height) by (nonlinear_arith);
        assert(half_height * half_pitch == half_pitch * half_height) by (nonlinear_arith);
    }
    copy_plane(frame, texture, 0, width, height, 0, pitch);
    copy_plane(frame, texture, luma, width / 2, half_height, pitch * height, half_pitch);
    copy_plane(
        frame,
        texture,
        luma + chroma,
        width / 2,
        half_height,
        pitch * height + half_pitch * half_height,
        half_pitch,
    );
    Ok(())
}

/// The planes of a texture of at most 2^64 bytes a row and 2^32 rows take
/// fewer than 2^97 bytes.
proof fn lemma_texture_bounds(pitch: nat, height: nat)
    by (nonlinear_arith)
    requires
        pitch <= 0xffff_ffff_ffff_ffff,
        height <= 0xffff_ffff,
    ensures
        pitch * height <= 0xffff_ffff_0000_0000_0000_0000,
        (pitch / 2) * (height / 2) <= 0xffff_ffff_0000_0000_0000_0000,
{
}

/// In the destination of a plane copy, the byte at column `col` of row `row`
/// is the byte at that place of the packed source.
pub proof fn lemma_with_plane_at(dst: Seq<u8>, src: Seq<u8>, p: PlaneCopy, row: int, col: int)
    requires
        0 < p.stride,
        p.row_len <= p.stride,
        0 <= row < p.rows,
        0 <= col < p.row_len,
        p.dst_off + p.rows * p.stride <= dst.len(),
    ensures
        0 <= p.dst_off + row * p.stride + col < dst.len(),
        plane_covers(p, p.dst_off + row * p.stride + col),
        plane_source(p, p.dst_off + row * p.stride + col) == p.src_off + row * p.row_len + col,
        with_plane(dst, src, p)[p.dst_off + row * p.stride + col] == src[p.src_off + row
            * p.row_len + col],
{
    let k = row * p.stride + col;
    lemma_row_inside(row, p.rows as int, p.stride as int);
    lemma_fundamental_div_mod_converse(k, p.stride as int, row, col);
}

/// A plane copy covers no byte in front of its first row or behind its last.
pub proof fn lemma_plane_stays_inside(p: PlaneCopy, i: int)
    requires
        0 < p.stride,
        i < p.dst_off || i >= p.dst_off + p.rows * p.stride,
    ensures
        !plane_covers(p, i),
{
    let k = i - p.dst_off;
    if k >= 0 {
        lemma_div_mod_range(k, p.stride as int);
        assert(k / (p.stride as int) >= p.rows) by (nonlinear_arith)
            requires
                k >= p.rows * p.stride,
                0 < p.stride,
                k == p.stride * (k / (p.stride as int)) + k % (p.stride as int),
                0 <= k % (p.stride as int) < p.stride,
        ;
    }
}

/// After an upload the texture holds every luma byte of the frame at its
/// place: pixel `(x, y)` at `y * pitch + x`.
pub proof fn lemma_uploaded_luma(
    texture: Seq<u8>,
    frame: Seq<u8>,
    d: DimsView,
    pitch: nat,
    x: int,
    y: int,
)
    requires
        valid_dims(d),
        upload_error(d, frame.len(), pitch, texture.len()) is None,
        0 <= x < d.width,
        0 <= y < d.height,
    ensures
        0 <= y * pitch + x < texture.len(),
        0 <= y * d.width + x < frame.len(),
        uploaded(texture, frame, d, pitch)[y * pitch + x] == frame[y * d.width + x],
{
    let i = y * pitch + x;
    let t1 = with_plane(texture, frame, luma_copy(d, pitch));
    let t2 = with_plane(t1, frame, u_copy(d, pitch));
    lemma_chroma_strides(d, pitch);
    lemma_with_plane_at(texture, frame, luma_copy(d, pitch), y, x);
    lemma_row_inside(y, d.height as int, pitch as int);
    lemma_row_inside(y, d.height as int, d.width as int);
    assert(d.height * pitch == pitch * d.height) by (nonlinear_arith);
    assert(d.height * d.width == d.width * d.height) by (nonlinear_arith);
    lemma_plane_stays_inside(u_copy(d, pitch), i);
    lemma_plane_stays_inside(v_copy(d, pitch), i);
}

/// After an upload the texture holds every byte of the frame's U plane at
/// its place: chroma sample `(x, y)` at `pitch * height + y * (pitch / 2) + x`.
pub proof fn lemma_uploaded_u(
    texture: Seq<u8>,
    frame: Seq<u8>,
    d: DimsView,
    pitch: nat,
    x: int,
    y: int,
)
    requires
        valid_dims(d),
        upload_error(d, frame.len(), pitch, texture.len()) is None,
        0 <= x < d.width / 2,
        0 <= y < d.height / 2,
    ensures
        0 <= pitch * d.height + y * (pitch / 2) + x < texture.len(),
        0 <= luma_len(d.width, d.height) + y * (d.width / 2) + x < frame.len(),
        uploaded(texture, frame, d, pitch)[pitch * d.height + y * (pitch / 2) + x] == frame[luma_len(
            d.width,
            d.height,
        ) + y * (d.width / 2) + x],
{
    let p = u_copy(d, pitch);
    let i = p.dst_off + y * p.stride + x;
    let t1 = with_plane(texture, frame, luma_copy(d, pitch));
    lemma_chroma_strides(d, pitch);
    lemma_with_plane_at(t1, frame, p, y, x);
    lemma_row_inside(y, p.rows as int, p.stride as int);
    lemma_row_inside(y, p.rows as int, p.row_len as int);
    assert((d.height / 2) * (pitch / 2) == (pitch / 2) * (d.height / 2)) by (nonlinear_arith);
    assert((d.height / 2) * (d.width / 2) == (d.width / 2) * (d.height / 2)) by (nonlinear_arith);
    lemma_plane_stays_inside(v_copy(d, pitch), i);
}

/// After an upload the texture holds every byte of the frame's V plane at
/// its place: chroma sample `(x, y)` behind the U plane at
/// `y * (pitch / 2) + x`.
pub proof fn lemma_uploaded_v(
    texture: Seq<u8>,
    frame: Seq<u8>,
    d: DimsView,
    pitch: nat,
    x: int,
    y: int,
)
    requires
        valid_dims(d),
        upload_error(d, frame.len(), pitch, texture.len()) is None,
        0 <= x < d.width / 2,
        0 <= y < d.height / 2,
    ensures
        0 <= pitch * d.height + (pitch / 2) * (d.height / 2) + y * (pitch / 2) + x < texture.len(),
        0 <= luma_len(d.width, d.height) + chroma_len(d.width, d.height) + y * (d.width / 2) + x
            < frame.len(),
        uploaded(texture, frame, d, pitch)[pitch * d.height + (pitch / 2) * (d.height / 2) + y * (
        pitch / 2) + x] == frame[luma_len(d.width, d.height) + chroma_len(d.width, d.height) + y * (
        d.width / 2) + x],
{
    let p = v_copy(d, pitch);
    let t2 = with_plane(
        with_plane(texture, frame, luma_copy(d, pitch)),
        frame,
        u_copy(d, pitch),
    );
    lemma_chroma_strides(d, pitch);
    lemma_with_plane_at(t2, frame, p, y, x);
    lemma_row_inside(y, p.rows as int, p.stride as int);
    lemma_row_inside(y, p.rows as int, p.row_len as int);
    assert((d.height / 2) * (pitch / 2) == (pitch / 2) * (d.height / 2)) by (nonlinear_arith);
    assert((d.height / 2) * (d.width / 2) == (d.width / 2) * (d.height / 2)) by (nonlinear_arith);
}

/// An upload leaves the padding as it was: every texture byte outside the
/// three planes keeps its value.
pub proof fn lemma_upload_keeps_padding(
    texture: Seq<u8>,
    frame: Seq<u8>,
    d: DimsView,
    pitch: nat,
    i: int,
)
    requires
        0 <= i < texture.len(),
        !in_picture(d, pitch, i),
    ensures
        uploaded(texture, frame, d, pitch)[i] == texture[i],
{
}

/// Uploading the same frame a second time changes nothing.
pub proof fn lemma_upload_idempotent(texture: Seq<u8>, frame: Seq<u8>, d: DimsView, pitch: nat)
    ensures
        uploaded(uploaded(texture, frame, d, pitch), frame, d, pitch) == uploaded(
            texture,
            frame,
            d,
            pitch,
        ),
{
    assert(uploaded(uploaded(texture, frame, d, pitch), frame, d, pitch) =~= uploaded(
        texture,
        frame,
        d,
        pitch,
    ));
}

/// The picture in a texture after an upload depends on the frame alone:
/// whatever two textures held before, after the upload of the same frame
/// they agree on every byte of the three planes.
pub proof fn lemma_upload_determines_picture(
    first: Seq<u8>,
    second: Seq<u8>,
    frame: Seq<u8>,
    d: DimsView,
    pitch: nat,
    i: int,
)
    requires
        0 <= i < first.len(),
        0 <= i < second.len(),
        in_picture(d, pitch, i),
    ensures
        uploaded(first, frame, d, pitch)[i] == uploaded(second, frame, d, pitch)[i],
{
}

/// With a pitch of at least the width, the chroma stride is positive and at
/// least the width of a chroma row.
proof fn lemma_chroma_strides(d: DimsView, pitch: nat)
    requires
        valid_dims(d),
        pitch >= d.width,
    ensures
        0 < pitch,
        0 < pitch / 2,
        d.width / 2 <= pitch / 2,
        0 <= (pitch / 2) * (d.height / 2),
        0 <= pitch * d.height,
        frame_len(d.width, d.height) == d.width * d.height + 2 * ((d.width / 2) * (d.height / 2)),
{
    assert(0 <= (pitch / 2) * (d.height / 2)) by (nonlinear_arith);
    assert(0 <= pitch * d.height) by (nonlinear_arith);
}

/// Whether the copy `p` has written the destination byte `i` when it stands
/// before column `col` of row `row`.
spec fn covered_before(p: PlaneCopy, row: int, col: int, i: int) -> bool {
    let k = i - p.dst_off;
    &&& 0 <= k
    &&& k % (p.stride as int) < p.row_len
    &&& (k / (p.stride as int) < row || (k / (p.stride as int) == row && k % (p.stride as int)
        < col))
}

/// The destination when the copy `p` stands before column `col` of row `row`.
spec fn partly_copied(dst: Seq<u8>, src: Seq<u8>, p: PlaneCopy, row: int, col: int) -> Seq<u8> {
    Seq::new(
        dst.len(),
        |i: int|
            if covered_before(p, row, col, i) {
                src[plane_source(p, i)]
            } else {
                dst[i]
            },
    )
}

/// Copies one plane from the packed source into the strided destination.
fn copy_plane(
    src: &[u8],
    dst: &mut [u8],
    src_off: usize,
    row_len: usize,
    rows: usize,
    dst_off: usize,
    stride: usize,
)
    requires
        0 < stride,
        row_len <= stride,
        src_off + rows * row_len <= src@.len(),
        dst_off + rows * stride <= old(dst)@.len(),
    ensures
        final(dst)@ == with_plane(
            old(dst)@,
            src@,
            PlaneCopy {
                src_off: src_off as nat,
                row_len: row_len as nat,
                rows: rows as nat,
                dst_off: dst_off as nat,
                stride: stride as nat,
            },
        ),
{
    let ghost p = PlaneCopy {
        src_off: src_off as nat,
        row_len: row_len as nat,
        rows: rows as nat,
        dst_off: dst_off as nat,
        stride: stride as nat,
    };
    let ghost before = dst@;
    let ghost stride_i = stride as int;
    let src_len = src.len();
    let dst_len = dst.len();
    let mut r: usize = 0;
    let mut src_row: usize = src_off;
    let mut dst_row: usize = dst_off;
    proof {
        assert(dst@ =~= partly_copied(before, src@, p, 0, 0)) by {
            assert forall|i: int| 0 <= i < before.len() implies !covered_before(p, 0, 0, i) by {
                let k = i - dst_off;
                if k >= 0 {
                    lemma_div_mod_range(k, stride_i);
                }
            }
        }
    }
    while r < rows
        invariant
            p == (PlaneCopy {
                src_off: src_off as nat,
                row_len: row_len as nat,
                rows: rows as nat,
                dst_off: dst_off as nat,
                stride: stride as nat,
            }),
            stride_i == stride,
            0 < stride,
            row_len <= stride,
            src_len == src@.len(),
            dst_len == before.len(),
            src_off + rows * row_len <= src_len,
            dst_off + rows * stride <= dst_len,
            dst@.len() == before.len(),
            r <= rows,
            src_row == src_off + r * row_len,
            dst_row == dst_off + r * stride,
            dst@ == partly_copied(before, src@, p, r as int, 0),
        decreases rows - r,
    {
        proof {
            lemma_row_inside(r as int, rows as int, row_len as int);
            lemma_row_inside(r as int, rows as int, stride as int);
        }
        let mut c: usize = 0;
        while c < row_len
            invariant
                p == (PlaneCopy {
                    src_off: src_off as nat,
                    row_len: row_len as nat,
                    rows: rows as nat,
                    dst_off: dst_off as nat,
                    stride: stride as nat,
                }),
                stride_i == stride,
                0 < stride,
                row_len <= stride,
                src_len == src@.len(),
                dst_len == before.len(),
                dst@.len() == before.len(),
                r < rows,
                c <= row_len,
                src_row == src_off + r * row_len,
                dst_row == dst_off + r * stride,
                src_row + row_len <= src_len,
                dst_row + stride <= dst_len,
                dst@ == partly_copied(before, src@, p, r as int, c as int),
            decreases row_len - c,
        {
            let ghost prev = dst@;
            let j = dst_row + c;
            let v = src[src_row + c];
            dst[j] = v;
            proof {
                let kj = j - dst_off;
                assert(kj == r * stride + c);
                lemma_fundamental_div_mod_converse(kj, stride_i, r as int, c as int);
                assert(plane_source(p, j as int) == src_row + c);
                assert(dst@ =~= partly_copied(before, src@, p, r as int, c + 1)) by {
                    assert forall|i: int| 0 <= i < before.len() && i != j implies covered_before(
                        p,
                        r as int,
                        c + 1,
                        i,
                    ) == covered_before(p, r as int, c as int, i) by {
                        let k = i - dst_off;
                        if k >= 0 {
                            lemma_div_mod_range(k, stride_i);
                            assert(!(k / stride_i == r && k % stride_i == c)) by (nonlinear_arith)
                                requires
                                    k == stride_i * (k / stride_i) + k % stride_i,
                                    k != r * stride_i + c,
                            ;
                        }
                    }
                }
            }
            c = c + 1;
        }
        proof {
            assert((r + 1) * row_len == r * row_len + row_len) by (nonlinear_arith);
            assert((r + 1) * stride == r * stride + stride) by (nonlinear_arith);
            assert(dst@ =~= partly_copied(before, src@, p, r + 1, 0)) by {
                assert forall|i: int| 0 <= i < before.len() implies covered_before(p, r + 1, 0, i)
                    == covered_before(p, r as int, row_len as int, i) by {
                    let k = i - dst_off;
                    if k >= 0 {
                        lemma_div_mod_range(k, stride_i);
                    }
                }
            }
        }
        r = r + 1;
        src_row = src_row + row_len;
        dst_row = dst_row + stride;
    }
    proof {
        assert(dst@ =~= with_plane(before, src@, p)) by {
            assert forall|i: int| 0 <= i < before.len() implies covered_before(p, rows as int, 0, i)
                == plane_covers(p, i) by {
                let k = i - dst_off;
                if k >= 0 {
                    lemma_div_mod_range(k, stride_i);
                }
            }
        }
    }
}

/// A non-negative `k` splits into a row and a column below the stride.
proof fn lemma_div_mod_range(k: int, stride: int)
    requires
        0 <= k,
        0 < stride,
    ensures
        0 <= k / stride,
        0 <= k % stride < stride,
        k == stride * (k / stride) + k % stride,
{
    lemma_fundamental_div_mod(k, stride);
    lemma_mod_pos_bound(k, stride);
    lemma_div_pos_is_pos(k, stride);
}

/// Row `r` of `rows` rows of `len` bytes ends inside the rows.
proof fn lemma_row_inside(r: int, rows: int, len: int)
    by (nonlinear_arith)
    requires
        0 <= r < rows,
        0 <= len,
    ensures
        0 <= r * len,
        r * len + len <= rows * len,
{
}

} // verus!
