//! Frame dimensions and the byte layout of a planar YUV 4:2:0 frame.
//!
//! A frame is one contiguous block: the luma plane of `width * height`
//! bytes, then the two chroma planes U and V of `(width / 2) * (height / 2)`
//! bytes each. There is no header and no padding between rows.

use vstd::prelude::*;

verus! {

/// Why a pair of dimensions is not accepted.
#[derive(Clone, Copy, Debug, PartialEq, Eq, Structural)]
pub enum DimsError {
    /// The width or the height is zero.
    Zero,
    /// The width or the height is odd, so the chroma planes would not cover
    /// the picture.
    Odd,
    /// A frame of these dimensions has more bytes than a buffer can hold.
    TooLarge,
}

/// The number of bytes in the luma plane.
pub open spec fn luma_len(width: nat, height: nat) -> nat {
    width * height
}

/// The number of bytes in each of the two chroma planes.
pub open spec fn chroma_len(width: nat, height: nat) -> nat {
    (width / 2) * (height / 2)
}

/// The number of bytes in a frame: the luma plane and two chroma planes.
pub open spec fn frame_len(width: nat, height: nat) -> nat {
    luma_len(width, height) + 2 * chroma_len(width, height)
}

/// The largest number of bytes a frame buffer can hold.
pub open spec fn max_frame_len() -> nat {
    isize::MAX as nat
}

/// The reason for which dimensions are refused, if they are. A zero is
/// reported before an odd value, and an odd value before the size.
pub open spec fn dims_error(width: nat, height: nat) -> Option<DimsError> {
    if width == 0 || height == 0 {
        Some(DimsError::Zero)
    } else if width % 2 != 0 || height % 2 != 0 {
        Some(DimsError::Odd)
    } else if frame_len(width, height) > max_frame_len() {
        Some(DimsError::TooLarge)
    } else {
        None
    }
}

/// Frame dimensions as a mathematical value.
pub struct DimsView {
    pub width: nat,
    pub height: nat,
}

/// Dimensions are valid when both are positive and even and a frame fits in
/// a buffer.
pub open spec fn valid_dims(d: DimsView) -> bool {
    dims_error(d.width, d.height) is None
}

/// The width and height of every frame of a stream, in pixels.
#[derive(Clone, Copy, Debug, PartialEq, Eq, Structural)]
pub struct FrameDims {
    width: u32,
    height: u32,
}

impl View for FrameDims {
    type V = DimsView;

    closed spec fn view(&self) -> DimsView {
        DimsView { width: self.width as nat, height: self.height as nat }
    }
}

impl FrameDims {
    #[verifier::type_invariant]
    spec fn inv(self) -> bool {
        valid_dims(self@)
    }

    /// Accepts dimensions that are positive and even and whose frame fits in
    /// a buffer, and says why it refuses any others.
    pub fn new(width: u32, height: u32) -> (r: Result<FrameDims, DimsError>)
        ensures
            match r {
                Ok(d) => {
                    &&& dims_error(width as nat, height as nat) is None
                    &&& d@ == (DimsView { width: width as nat, height: height as nat })
                    &&& valid_dims(d@)
                },
                Err(e) => dims_error(width as nat, height as nat) == Some(e),
            },
    {
        if width == 0 || height == 0 {
            return Err(DimsError::Zero);
        }
        if width % 2 != 0 || height % 2 != 0 {
            return Err(DimsError::Odd);
        }
        proof {
            lemma_plane_bounds(width as nat, height as nat);
        }
        let luma: u128 = (width as u128) * (height as u128);
        let chroma: u128 = ((width / 2) as u128) * ((height / 2) as u128);
        let total: u128 = luma + 2 * chroma;
        if total > isize::MAX as u128 {
            return Err(DimsError::TooLarge);
        }
        Ok(FrameDims { width, height })
    }

    /// The width in pixels: positive and even.
    pub fn width(&self) -> (w: u32)
        ensures
            w == self@.width,
            valid_dims(self@),
    {
        proof {
            use_type_invariant(self);
        }
        self.width
    }

    /// The height in pixels: positive and even.
    pub fn height(&self) -> (h: u32)
        ensures
            h == self@.height,
            valid_dims(self@),
    {
        proof {
            use_type_invariant(self);
        }
        self.height
    }

    /// The number of bytes in the luma plane, which is also the offset of the
    /// U plane in a frame.
    pub fn luma_len(&self) -> (n: usize)
        ensures
            n == luma_len(self@.width, self@.height),
            valid_dims(self@),
    {
        proof {
            use_type_invariant(self);
            lemma_plane_bounds(self@.width, self@.height);
        }
        (self.width as usize) * (self.height as usize)
    }

    /// The number of bytes in each chroma plane.
    pub fn chroma_len(&self) -> (n: usize)
        ensures
            n == chroma_len(self@.width, self@.height),
            valid_dims(self@),
    {
        proof {
            use_type_invariant(self);
            lemma_plane_bounds(self@.width, self@.height);
        }
        ((self.width / 2) as usize) * ((self.height / 2) as usize)
    }

    /// The offset of the V plane in a frame.
    pub fn v_offset(&self) -> (n: usize)
        ensures
            n == luma_len(self@.width, self@.height) + chroma_len(self@.width, self@.height),
            valid_dims(self@),
    {
        proof {
            lemma_plane_bounds(self@.width, self@.height);
        }
        self.luma_len() + self.chroma_len()
    }

    /// The number of bytes in a frame.
    pub fn frame_len(&self) -> (n: usize)
        ensures
            n == frame_len(self@.width, self@.height),
            n == self@.width * self@.height * 3 / 2,
            n >= 6,
            valid_dims(self@),
    {
        proof {
            use_type_invariant(self);
            lemma_plane_bounds(self@.width, self@.height);
            lemma_frame_len_even(self@.width, self@.height);
            lemma_frame_len_least(self@.width, self@.height);
        }
        self.luma_len() + 2 * self.chroma_len()
    }
}

/// Allocates the buffer that holds one frame: as many zero bytes as a frame
/// of these dimensions has.
pub fn new_frame_buffer(dims: &FrameDims) -> (buf: Vec<u8>)
    ensures
        buf@.len() == frame_len(dims@.width, dims@.height),
        buf@.len() == dims@.width * dims@.height * 3 / 2,
        forall|i: int| 0 <= i < buf@.len() ==> buf@[i] == 0u8,
{
    let n = dims.frame_len();
    let buf = vec![0u8; n];
    buf
}

/// With an even width and an even height, a frame has `width * height * 3 / 2`
/// bytes.
pub proof fn lemma_frame_len_even(width: nat, height: nat)
    requires
        width % 2 == 0,
        height % 2 == 0,
    ensures
        frame_len(width, height) == width * height * 3 / 2,
{
    let a = width / 2;
    let b = height / 2;
    assert(width == 2 * a);
    assert(height == 2 * b);
    assert(width * height == 4 * (a * b)) by (nonlinear_arith)
        requires
            width == 2 * a,
            height == 2 * b,
    ;
    assert(width * height * 3 == 12 * (a * b));
}

/// The chroma planes together are never larger than the luma plane, and a
/// frame of at most 2^32 by 2^32 pixels has fewer than 2^65 bytes.
proof fn lemma_plane_bounds(width: nat, height: nat)
    by (nonlinear_arith)
    requires
        width <= 0xffff_ffff,
        height <= 0xffff_ffff,
    ensures
        width * height <= 0xffff_fffe_0000_0001,
        (width / 2) * (height / 2) <= 0x3fff_ffff_0000_0001,
        4 * ((width / 2) * (height / 2)) <= width * height,
{
}

/// A frame with positive even dimensions has at least six bytes.
proof fn lemma_frame_len_least(width: nat, height: nat)
    by (nonlinear_arith)
    requires
        width >= 2,
        height >= 2,
    ensures
        frame_len(width, height) >= 6,
{
}

} // verus!
