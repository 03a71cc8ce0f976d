//! Rectangles and the aspect-preserving fit of a frame into a viewport.

use vstd::prelude::*;

verus! {

/// Largest width or height a rectangle stores.
pub const MAX_SIZE: u32 = 1073741823;

/// Largest position a rectangle stores.
pub const MAX_POSITION: i32 = 1073741823;

/// Smallest position a rectangle stores.
pub const MIN_POSITION: i32 = -1073741824;

/// A rectangle as a mathematical value: position of the top-left corner and size.
pub struct RectView {
    pub x: int,
    pub y: int,
    pub w: int,
    pub h: int,
}

/// The size stored for a requested size: zero becomes one, and anything above
/// [`MAX_SIZE`] becomes [`MAX_SIZE`].
pub open spec fn stored_size(v: int) -> int {
    if v <= 0 {
        1
    } else if v > MAX_SIZE {
        MAX_SIZE as int
    } else {
        v
    }
}

/// The position stored for a requested position: clamped into
/// [`MIN_POSITION`]..=[`MAX_POSITION`].
pub open spec fn stored_position(v: int) -> int {
    if v > MAX_POSITION {
        MAX_POSITION as int
    } else if v < MIN_POSITION {
        MIN_POSITION as int
    } else {
        v
    }
}

/// The rectangle stored for the requested position and size.
pub open spec fn rect_of(x: int, y: int, w: int, h: int) -> RectView {
    RectView { x: stored_position(x), y: stored_position(y), w: stored_size(w), h: stored_size(h) }
}

/// A rectangle is valid when it is non-empty and within the stored ranges.
pub open spec fn valid_rect(r: RectView) -> bool {
    &&& MIN_POSITION <= r.x <= MAX_POSITION
    &&& MIN_POSITION <= r.y <= MAX_POSITION
    &&& 1 <= r.w <= MAX_SIZE
    &&& 1 <= r.h <= MAX_SIZE
}

/// A non-empty rectangle with bounded position and size.
///
/// The width and height are always at least one and at most [`MAX_SIZE`], so
/// that the right and bottom edges never leave the range of an `i32`.
#[derive(Clone, Copy, Debug, PartialEq, Eq, Structural)]
pub struct Rect {
    x: i32,
    y: i32,
    w: u32,
    h: u32,
}

impl View for Rect {
    type V = RectView;

    closed spec fn view(&self) -> RectView {
        RectView { x: self.x as int, y: self.y as int, w: self.w as int, h: self.h as int }
    }
}

impl Rect {
    #[verifier::type_invariant]
    spec fn inv(self) -> bool {
        valid_rect(self@)
    }

    /// Creates the rectangle stored for the given position and size: a width
    /// or height of zero is replaced by one, and all four values are clamped
    /// into their ranges.
    pub fn new(x: i32, y: i32, width: u32, height: u32) -> (r: Rect)
        ensures
            r@ == rect_of(x as int, y as int, width as int, height as int),
            valid_rect(r@),
    {
        Rect { x: clamp_position(x), y: clamp_position(y), w: clamp_size(width), h: clamp_size(height) }
    }

    /// The horizontal position of the left edge.
    pub fn x(&self) -> (v: i32)
        ensures
            v == self@.x,
            MIN_POSITION <= v <= MAX_POSITION,
    {
        proof {
            use_type_invariant(self);
        }
        self.x
    }

    /// The vertical position of the top edge.
    pub fn y(&self) -> (v: i32)
        ensures
            v == self@.y,
            MIN_POSITION <= v <= MAX_POSITION,
    {
        proof {
            use_type_invariant(self);
        }
        self.y
    }

    /// The width, at least one.
    pub fn width(&self) -> (v: u32)
        ensures
            v == self@.w,
            1 <= v <= MAX_SIZE,
    {
        proof {
            use_type_invariant(self);
        }
        self.w
    }

    /// The height, at least one.
    pub fn height(&self) -> (v: u32)
        ensures
            v == self@.h,
            1 <= v <= MAX_SIZE,
    {
        proof {
            use_type_invariant(self);
        }
        self.h
    }
}

fn clamp_size(v: u32) -> (r: u32)
    ensures
        r == stored_size(v as int),
{
    if v == 0 {
        1
    } else if v > MAX_SIZE {
        MAX_SIZE
    } else {
        v
    }
}

fn clamp_position(v: i32) -> (r: i32)
    ensures
        r == stored_position(v as int),
{
    if v > MAX_POSITION {
        MAX_POSITION
    } else if v < MIN_POSITION {
        MIN_POSITION
    } else {
        v
    }
}

/// The destination rectangle for a frame of `fw` by `fh` pixels shown in the
/// viewport `dst`, keeping the frame's aspect ratio.
///
/// A viewport of exactly the frame's size is returned unchanged. A viewport
/// that is relatively taller than the frame is filled in width and the
/// picture is centred vertically (letterbox); otherwise it is filled in
/// height and the picture is centred horizontally (pillarbox). Divisions
/// truncate, and the result is stored as [`rect_of`] says, so that it is
/// never empty.
pub open spec fn fit_rect(dst: RectView, fw: int, fh: int) -> RectView {
    if dst.w == fw && dst.h == fh {
        dst
    } else if dst.w * fh < dst.h * fw {
        let h = fh * dst.w / fw;
        rect_of(0, (dst.h - h) / 2, dst.w, h)
    } else {
        let w = fw * dst.h / fh;
        rect_of((dst.w - w) / 2, 0, w, dst.h)
    }
}

/// Computes the destination rectangle inside the viewport `dst` for a frame
/// of `width` by `height` pixels, keeping the frame's aspect ratio.
pub fn calc_dest_rect(dst: Rect, width: u32, height: u32) -> (r: Rect)
    requires
        width > 0,
        height > 0,
    ensures
        r@ == fit_rect(dst@, width as int, height as int),
        valid_rect(r@),
{
    proof {
        use_type_invariant(&dst);
    }
    let sw = dst.width();
    let sh = dst.height();
    if sw == width && sh == height {
        return dst;
    }
    let sw_wide = sw as u64;
    let sh_wide = sh as u64;
    let fw_wide = width as u64;
    let fh_wide = height as u64;
    proof {
        lemma_product_fits(sw as int, height as int);
        lemma_product_fits(sh as int, width as int);
    }
    if sw_wide * fh_wide < sh_wide * fw_wide {
        proof {
            lemma_scaled_below(height as int, sw as int, width as int, sh as int);
        }
        let h2 = (fh_wide * sw_wide / fw_wide) as u32;
        let y = (sh - h2) / 2;
        Rect::new(0, y as i32, sw, h2)
    } else {
        proof {
            lemma_scaled_at_most(width as int, sh as int, height as int, sw as int);
        }
        let w2 = (fw_wide * sh_wide / fh_wide) as u32;
        let x = (sw - w2) / 2;
        Rect::new(x as i32, 0, w2, sh)
    }
}

/// Fitting a frame into a viewport of exactly its own size gives the whole
/// viewport.
pub proof fn lemma_fit_identity(dst: RectView)
    ensures
        fit_rect(dst, dst.w, dst.h) == dst,
{
}

/// The fitted rectangle is never larger than the viewport, and its aspect
/// ratio is the frame's up to the truncation of one division: the cross
/// products `w * fh` and `h * fw` differ by at most the larger of `fw` and
/// `fh`.
pub proof fn lemma_fit_preserves_aspect(dst: RectView, fw: int, fh: int)
    requires
        valid_rect(dst),
        fw > 0,
        fh > 0,
    ensures
        fit_rect(dst, fw, fh).w <= dst.w,
        fit_rect(dst, fw, fh).h <= dst.h,
        fit_rect(dst, fw, fh).w * fh - fit_rect(dst, fw, fh).h * fw <= if fw >= fh { fw } else { fh },
        fit_rect(dst, fw, fh).h * fw - fit_rect(dst, fw, fh).w * fh <= if fw >= fh { fw } else { fh },
{
    let r = fit_rect(dst, fw, fh);
    if dst.w == fw && dst.h == fh {
        assert(r.w * fh == r.h * fw) by (nonlinear_arith)
            requires
                r.w == fw,
                r.h == fh,
        ;
    } else if dst.w * fh < dst.h * fw {
        let h = fh * dst.w / fw;
        lemma_scaled_below(fh, dst.w, fw, dst.h);
        lemma_quotient_gap(fh, dst.w, fw);
        assert(r.w == dst.w);
        if h == 0 {
            assert(r.h == 1);
            assert(r.h * fw == fw) by (nonlinear_arith)
                requires
                    r.h == 1,
            ;
        } else {
            assert(r.h == h);
        }
    } else {
        let w = fw * dst.h / fh;
        lemma_scaled_at_most(fw, dst.h, fh, dst.w);
        lemma_quotient_gap(fw, dst.h, fh);
        assert(r.h == dst.h);
        if w == 0 {
            assert(r.w == 1);
            assert(r.w * fh == fh) by (nonlinear_arith)
                requires
                    r.w == 1,
            ;
        } else {
            assert(r.w == w);
        }
    }
}

/// The fitted rectangle is centred in the viewport: measured from the
/// viewport's top-left corner, the margins on opposite sides differ by at
/// most one pixel.
///
/// A viewport of exactly the frame's size is returned as it is, with its own
/// position, so for such a viewport this holds when it lies at the origin.
pub proof fn lemma_fit_centered(dst: RectView, fw: int, fh: int)
    requires
        valid_rect(dst),
        fw > 0,
        fh > 0,
        dst.w == fw && dst.h == fh ==> dst.x == 0 && dst.y == 0,
    ensures
        -1 <= fit_rect(dst, fw, fh).x - (dst.w - fit_rect(dst, fw, fh).x - fit_rect(dst, fw, fh).w) <= 1,
        -1 <= fit_rect(dst, fw, fh).y - (dst.h - fit_rect(dst, fw, fh).y - fit_rect(dst, fw, fh).h) <= 1,
{
    if dst.w == fw && dst.h == fh {
    } else if dst.w * fh < dst.h * fw {
        lemma_scaled_below(fh, dst.w, fw, dst.h);
    } else {
        lemma_scaled_at_most(fw, dst.h, fh, dst.w);
    }
}

/// The fitted rectangle is never empty and lies inside the viewport,
/// measured from the viewport's top-left corner.
///
/// A viewport of exactly the frame's size is returned as it is, with its own
/// position, so for such a viewport the second part holds when it lies at
/// the origin.
pub proof fn lemma_fit_inside_viewport(dst: RectView, fw: int, fh: int)
    requires
        valid_rect(dst),
        fw > 0,
        fh > 0,
    ensures
        valid_rect(fit_rect(dst, fw, fh)),
        fit_rect(dst, fw, fh).w >= 1,
        fit_rect(dst, fw, fh).h >= 1,
        (dst.w == fw && dst.h == fh ==> dst.x == 0 && dst.y == 0) ==> {
            &&& 0 <= fit_rect(dst, fw, fh).x
            &&& fit_rect(dst, fw, fh).x + fit_rect(dst, fw, fh).w <= dst.w
            &&& 0 <= fit_rect(dst, fw, fh).y
            &&& fit_rect(dst, fw, fh).y + fit_rect(dst, fw, fh).h <= dst.h
        },
{
    if dst.w == fw && dst.h == fh {
    } else if dst.w * fh < dst.h * fw {
        lemma_scaled_below(fh, dst.w, fw, dst.h);
    } else {
        lemma_scaled_at_most(fw, dst.h, fh, dst.w);
    }
}

/// A truncated quotient `a * b / d`, multiplied back, falls short of `a * b`
/// by less than `d`.
proof fn lemma_quotient_gap(a: int, b: int, d: int)
    by (nonlinear_arith)
    requires
        0 <= a,
        0 <= b,
        0 < d,
    ensures
        0 <= b * a - (a * b / d) * d < d,
{
}

/// The product of two values below 2^32 fits in 64 bits.
proof fn lemma_product_fits(a: int, b: int)
    by (nonlinear_arith)
    requires
        0 <= a <= 0xffff_ffff,
        0 <= b <= 0xffff_ffff,
    ensures
        0 <= a * b <= 0xffff_fffe_0000_0001,
        a * b == b * a,
{
}

/// If `a * b < c * d` then the truncated quotient `a * b / d` is below `c`.
proof fn lemma_scaled_below(a: int, b: int, d: int, c: int)
    by (nonlinear_arith)
    requires
        0 <= a,
        0 <= b,
        0 < d,
        b * a < c * d,
    ensures
        0 <= a * b / d < c,
{
}

/// If `a * b <= c * d` then the truncated quotient `a * b / d` is at most `c`.
proof fn lemma_scaled_at_most(a: int, b: int, d: int, c: int)
    by (nonlinear_arith)
    requires
        0 <= a,
        0 <= b,
        0 < d,
        0 <= c,
        a * b <= c * d,
    ensures
        0 <= a * b / d <= c,
{
}

} // verus!
