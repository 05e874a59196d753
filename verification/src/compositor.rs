//! The compositor: validate the inputs, then blend each listed colour into
//! the image at its listed coordinate, in list order, in place.

use vstd::prelude::*;
use crate::arrays::{CoordArray, ValueArray, dims_product, lemma_dims_product2, lemma_dims_product3};
use crate::bits::{NEG_ZERO_BITS, ONE_BITS, blend_bits, blend_channel, is_finite_bits};

verus! {

/// The distinct conditions under which a call is rejected.
#[derive(Clone, Copy, Debug, PartialEq, Eq, Structural)]
pub enum StackError {
    /// The image does not have exactly three axes with a third axis of
    /// length four.
    BaseShape,
    /// The coordinate list does not have exactly two axes with a second
    /// axis of length two.
    CoordShape,
    /// The colour list does not have exactly two axes with a second axis
    /// of length four.
    ColourShape,
    /// The coordinate and colour lists disagree on the number of rows.
    RowCountMismatch,
    /// The opacity does not lie in the half-open interval `(0, 1]`.
    AlphaRange,
    /// A coordinate falls outside the image's width or height.
    IndexOutOfBounds,
}

impl StackError {
    /// A human-readable account of the violated constraint.
    pub fn message(&self) -> (m: &'static str)
        ensures
            *self == StackError::BaseShape ==> m@ == "base must have shape (w, h, 4)"@,
            *self == StackError::CoordShape ==> m@ == "xy must have shape (n, 2)"@,
            *self == StackError::ColourShape ==> m@ == "colours must have shape (n, 4)"@,
            *self == StackError::RowCountMismatch
                ==> m@ == "xy and colours must have the same number of rows"@,
            *self == StackError::AlphaRange ==> m@ == "alpha must be in the range ]0, 1]"@,
            *self == StackError::IndexOutOfBounds
                ==> m@ == "coordinate out of bounds of the image"@,
    {
        match self {
            StackError::BaseShape => "base must have shape (w, h, 4)",
            StackError::CoordShape => "xy must have shape (n, 2)",
            StackError::ColourShape => "colours must have shape (n, 4)",
            StackError::RowCountMismatch => "xy and colours must have the same number of rows",
            StackError::AlphaRange => "alpha must be in the range ]0, 1]",
            StackError::IndexOutOfBounds => "coordinate out of bounds of the image",
        }
    }
}

/// The image has exactly three axes and its third axis has length four.
pub open spec fn base_shape_ok(dims: Seq<usize>) -> bool {
    dims.len() == 3 && dims[2] == 4
}

/// The coordinate list has exactly two axes and its second axis has length
/// two.
pub open spec fn coord_shape_ok(dims: Seq<usize>) -> bool {
    dims.len() == 2 && dims[1] == 2
}

/// The colour list has exactly two axes and its second axis has length four.
pub open spec fn colour_shape_ok(dims: Seq<usize>) -> bool {
    dims.len() == 2 && dims[1] == 4
}

/// The opacity lies in `(0, 1]`.
///
/// Positive binary64 values order exactly as their bit patterns do, so a
/// value is in `(0, 1]` precisely when its pattern lies between the smallest
/// positive subnormal (pattern 1) and the pattern of one.  Every NaN and
/// infinity pattern, the two zeros and every negative value fall outside
/// this range.
pub open spec fn alpha_ok(alpha: u64) -> bool {
    1 <= alpha && alpha <= ONE_BITS
}

/// Every validated precondition of a call holds.
pub open spec fn inputs_valid(
    base_dims: Seq<usize>,
    xy_dims: Seq<usize>,
    colours_dims: Seq<usize>,
    alpha: u64,
) -> bool {
    &&& base_shape_ok(base_dims)
    &&& coord_shape_ok(xy_dims)
    &&& colour_shape_ok(colours_dims)
    &&& xy_dims[0] == colours_dims[0]
    &&& alpha_ok(alpha)
}

/// The flat position of channel zero of pixel `(x, y)` in an image of the
/// given height.
pub open spec fn pixel_offset(h: int, x: int, y: int) -> int {
    (x * h + y) * 4
}

/// The x coordinate of point `i` of the flattened coordinate list.
pub open spec fn point_x(xy: Seq<u16>, i: int) -> int {
    xy[2 * i] as int
}

/// The y coordinate of point `i` of the flattened coordinate list.
pub open spec fn point_y(xy: Seq<u16>, i: int) -> int {
    xy[2 * i + 1] as int
}

/// The colour row of point `i` of the flattened colour list.
pub open spec fn point_colour(colours: Seq<u64>, i: int) -> Seq<u64> {
    colours.subrange(4 * i, 4 * i + 4)
}

/// Point `i` lies inside an image of the given width and height.
pub open spec fn point_in_bounds(xy: Seq<u16>, w: int, h: int, i: int) -> bool {
    point_x(xy, i) < w && point_y(xy, i) < h
}

/// The image data after one colour row is blended at flat offset `off`:
/// the four channels there are blended, each from its own pre-update value,
/// and every other position is untouched.
pub open spec fn blend_point(data: Seq<u64>, off: int, colour: Seq<u64>, alpha: u64) -> Seq<u64> {
    Seq::new(
        data.len(),
        |i: int| if off <= i < off + 4 {
            blend_bits(data[i], colour[i - off], alpha)
        } else {
            data[i]
        },
    )
}

/// The image data after the first `k` points are blended, in list order.
pub open spec fn blended_upto(
    data: Seq<u64>,
    h: int,
    xy: Seq<u16>,
    colours: Seq<u64>,
    alpha: u64,
    k: int,
) -> Seq<u64>
    decreases k,
{
    if k <= 0 {
        data
    } else {
        blend_point(
            blended_upto(data, h, xy, colours, alpha, k - 1),
            pixel_offset(h, point_x(xy, k - 1), point_y(xy, k - 1)),
            point_colour(colours, k - 1),
            alpha,
        )
    }
}

/// Every pattern in the sequence encodes a finite value.
pub open spec fn all_finite(s: Seq<u64>) -> bool {
    forall|j: int| 0 <= j < s.len() ==> is_finite_bits(#[trigger] s[j])
}

/// Every pattern encodes a finite value and none is a negative zero: at
/// full opacity such colour channels are written back bit for bit.
pub open spec fn colours_exact(s: Seq<u64>) -> bool {
    forall|j: int| 0 <= j < s.len() ==> is_finite_bits(#[trigger] s[j]) && s[j] != NEG_ZERO_BITS
}

/// No point after point `i` among the first `n` lists the same pixel.
pub open spec fn last_listing(xy: Seq<u16>, n: int, i: int) -> bool {
    forall|j: int|
        i < j < n ==> !(point_x(xy, j) == point_x(xy, i) && point_y(xy, j) == point_y(xy, i))
}

/// Channel `c` of the pixel that point `i` lists holds exactly channel `c`
/// of point `i`'s colour row.
pub open spec fn holds_point_colour(
    data: Seq<u64>,
    h: int,
    xy: Seq<u16>,
    colours: Seq<u64>,
    i: int,
    c: int,
) -> bool {
    data[pixel_offset(h, point_x(xy, i), point_y(xy, i)) + c] == colours[4 * i + c]
}

/// Distinct pixels of one image occupy disjoint four-channel windows.
pub proof fn lemma_offset_disjoint(h: int, x1: int, y1: int, x2: int, y2: int)
    requires
        0 <= x1,
        0 <= x2,
        0 <= y1 < h,
        0 <= y2 < h,
        !(x1 == x2 && y1 == y2),
    ensures
        pixel_offset(h, x1, y1) + 4 <= pixel_offset(h, x2, y2) || pixel_offset(h, x2, y2) + 4
            <= pixel_offset(h, x1, y1),
{
    assert(x1 * h + y1 != x2 * h + y2) by (nonlinear_arith)
        requires
            0 <= x1,
            0 <= x2,
            0 <= y1 < h,
            0 <= y2 < h,
            !(x1 == x2 && y1 == y2),
    ;
}

/// Blending preserves the image's length.
pub proof fn lemma_blended_len(
    data: Seq<u64>,
    h: int,
    xy: Seq<u16>,
    colours: Seq<u64>,
    alpha: u64,
    k: int,
)
    ensures
        blended_upto(data, h, xy, colours, alpha, k).len() == data.len(),
    decreases k,
{
    if k > 0 {
        lemma_blended_len(data, h, xy, colours, alpha, k - 1);
    }
}

/// Law: a pixel that none of the first `k` points lists keeps every one of
/// its channel values, bit for bit.
pub proof fn lemma_unlisted_pixel_unchanged(
    data: Seq<u64>,
    w: int,
    h: int,
    xy: Seq<u16>,
    colours: Seq<u64>,
    alpha: u64,
    k: int,
    px: int,
    py: int,
    c: int,
)
    requires
        0 <= px < w,
        0 <= py < h,
        0 <= c < 4,
        data.len() == w * h * 4,
        0 <= k,
        2 * k <= xy.len(),
        forall|i: int| 0 <= i < k ==> point_in_bounds(xy, w, h, i),
        forall|i: int| 0 <= i < k ==> !(point_x(xy, i) == px && point_y(xy, i) == py),
    ensures
        blended_upto(data, h, xy, colours, alpha, k)[pixel_offset(h, px, py) + c]
            == data[pixel_offset(h, px, py) + c],
    decreases k,
{
    if k > 0 {
        lemma_unlisted_pixel_unchanged(data, w, h, xy, colours, alpha, k - 1, px, py, c);
        lemma_blended_len(data, h, xy, colours, alpha, k - 1);
        let prev = blended_upto(data, h, xy, colours, alpha, k - 1);
        let xk = point_x(xy, k - 1);
        let yk = point_y(xy, k - 1);
        assert(point_in_bounds(xy, w, h, k - 1));
        lemma_offset_disjoint(h, px, py, xk, yk);
        assert(0 <= pixel_offset(h, px, py) + c < data.len()) by (nonlinear_arith)
            requires
                0 <= px < w,
                0 <= py < h,
                0 <= c < 4,
                data.len() == w * h * 4,
        ;
        assert(blended_upto(data, h, xy, colours, alpha, k) == blend_point(
            prev,
            pixel_offset(h, xk, yk),
            point_colour(colours, k - 1),
            alpha,
        ));
    }
}

/// Law: two listings of one pixel compose sequentially; the later colour
/// blends on top of the result of the earlier one, so the order of the two
/// rows is observable.
pub proof fn lemma_duplicate_composition(
    data: Seq<u64>,
    h: int,
    xy: Seq<u16>,
    colours: Seq<u64>,
    alpha: u64,
    c: int,
)
    requires
        xy.len() == 4,
        colours.len() == 8,
        point_x(xy, 1) == point_x(xy, 0),
        point_y(xy, 1) == point_y(xy, 0),
        0 <= c < 4,
        0 <= pixel_offset(h, point_x(xy, 0), point_y(xy, 0)),
        pixel_offset(h, point_x(xy, 0), point_y(xy, 0)) + 4 <= data.len(),
    ensures
        blended_upto(data, h, xy, colours, alpha, 2)[pixel_offset(h, point_x(xy, 0), point_y(xy, 0))
            + c] == blend_bits(
            blend_bits(data[pixel_offset(h, point_x(xy, 0), point_y(xy, 0)) + c], colours[c], alpha),
            colours[4 + c],
            alpha,
        ),
{
    let off = pixel_offset(h, point_x(xy, 0), point_y(xy, 0));
    assert(blended_upto(data, h, xy, colours, alpha, 0) == data);
    let s1 = blended_upto(data, h, xy, colours, alpha, 1);
    assert(s1 == blend_point(data, off, point_colour(colours, 0), alpha));
    assert(s1[off + c] == blend_bits(data[off + c], colours[c], alpha));
    let s2 = blended_upto(data, h, xy, colours, alpha, 2);
    assert(s2 == blend_point(s1, off, point_colour(colours, 1), alpha));
    assert(s2[off + c] == blend_bits(s1[off + c], colours[4 + c], alpha));
}

/// Blend the listed colours into the image, in list order, in place.
///
/// The shapes and the opacity are validated first, in a fixed order, each
/// failure leaving the image untouched; a coordinate out of bounds is
/// reported when its point is reached, leaving every earlier point already
/// blended.  On success the image equals the sequential blend of all `n`
/// points.
pub fn stack(
    base: &mut ValueArray,
    xy: &CoordArray,
    colours: &ValueArray,
    alpha: u64,
) -> (res: Result<(), StackError>)
    requires
        old(base).wf(),
        xy.wf(),
        colours.wf(),
    ensures
        final(base).wf(),
        final(base).dims@ == old(base).dims@,
        // Law: at full opacity a blend overwrites; each pixel's final value
        // is the colour row of its last listing, bit for bit, provided the
        // image is finite and no colour channel is a NaN or a negative zero.
        (res is Ok && alpha == ONE_BITS && all_finite(old(base).data@) && colours_exact(
            colours.data@,
        )) ==> (forall|i: int, c: int|
            0 <= i < xy.dims@[0] as int && 0 <= c < 4 && last_listing(
                xy.data@,
                xy.dims@[0] as int,
                i,
            ) ==> #[trigger] holds_point_colour(
                final(base).data@,
                old(base).dims@[1] as int,
                xy.data@,
                colours.data@,
                i,
                c,
            )),
        match res {
            Result::Ok(()) => {
                &&& inputs_valid(old(base).dims@, xy.dims@, colours.dims@, alpha)
                &&& forall|j: int|
                    0 <= j < xy.dims@[0] as int ==> point_in_bounds(
                        xy.data@,
                        old(base).dims@[0] as int,
                        old(base).dims@[1] as int,
                        j,
                    )
                &&& final(base).data@ == blended_upto(
                    old(base).data@,
                    old(base).dims@[1] as int,
                    xy.data@,
                    colours.data@,
                    alpha,
                    xy.dims@[0] as int,
                )
            },
            Result::Err(StackError::BaseShape) => {
                &&& !base_shape_ok(old(base).dims@)
                &&& final(base).data@ == old(base).data@
            },
            Result::Err(StackError::CoordShape) => {
                &&& base_shape_ok(old(base).dims@)
                &&& !coord_shape_ok(xy.dims@)
                &&& final(base).data@ == old(base).data@
            },
            Result::Err(StackError::ColourShape) => {
                &&& base_shape_ok(old(base).dims@)
                &&& coord_shape_ok(xy.dims@)
                &&& !colour_shape_ok(colours.dims@)
                &&& final(base).data@ == old(base).data@
            },
            Result::Err(StackError::RowCountMismatch) => {
                &&& base_shape_ok(old(base).dims@)
                &&& coord_shape_ok(xy.dims@)
                &&& colour_shape_ok(colours.dims@)
                &&& xy.dims@[0] != colours.dims@[0]
                &&& final(base).data@ == old(base).data@
            },
            Result::Err(StackError::AlphaRange) => {
                &&& base_shape_ok(old(base).dims@)
                &&& coord_shape_ok(xy.dims@)
                &&& colour_shape_ok(colours.dims@)
                &&& xy.dims@[0] == colours.dims@[0]
                &&& !alpha_ok(alpha)
                &&& final(base).data@ == old(base).data@
            },
            Result::Err(StackError::IndexOutOfBounds) => {
                &&& inputs_valid(old(base).dims@, xy.dims@, colours.dims@, alpha)
                &&& exists|k: int|
                    {
                        &&& 0 <= k < xy.dims@[0] as int
                        &&& forall|j: int|
                            0 <= j < k ==> point_in_bounds(
                                xy.data@,
                                old(base).dims@[0] as int,
                                old(base).dims@[1] as int,
                                j,
                            )
                        &&& !#[trigger] point_in_bounds(
                            xy.data@,
                            old(base).dims@[0] as int,
                            old(base).dims@[1] as int,
                            k,
                        )
                        &&& final(base).data@ == blended_upto(
                            old(base).data@,
                            old(base).dims@[1] as int,
                            xy.data@,
                            colours.data@,
                            alpha,
                            k,
                        )
                    }
            },
        },
{
    if !(base.dims.len() == 3 && base.dims[2] == 4) {
        return Err(StackError::BaseShape);
    }
    if !(xy.dims.len() == 2 && xy.dims[1] == 2) {
        return Err(StackError::CoordShape);
    }
    if !(colours.dims.len() == 2 && colours.dims[1] == 4) {
        return Err(StackError::ColourShape);
    }
    if xy.dims[0] != colours.dims[0] {
        return Err(StackError::RowCountMismatch);
    }
    if !(alpha >= 1 && alpha <= ONE_BITS) {
        return Err(StackError::AlphaRange);
    }

    let w = base.dims[0];
    let h = base.dims[1];
    let n = xy.dims[0];

    proof {
        lemma_dims_product3(base.dims@);
        lemma_dims_product2(xy.dims@);
        lemma_dims_product2(colours.dims@);
    }

    let ghost orig = base.data@;
    let mut i: usize = 0;
    while i < n
        invariant
            i <= n,
            base.wf(),
            inputs_valid(old(base).dims@, xy.dims@, colours.dims@, alpha),
            base.dims@ == old(base).dims@,
            base.dims@.len() == 3,
            w == base.dims@[0],
            h == base.dims@[1],
            xy.dims@.len() == 2,
            n == xy.dims@[0],
            orig == old(base).data@,
            orig.len() == (w as int) * (h as int) * 4,
            base.data@.len() == orig.len(),
            xy.data@.len() == 2 * (n as int),
            colours.data@.len() == 4 * (n as int),
            forall|j: int|
                0 <= j < i as int ==> point_in_bounds(xy.data@, w as int, h as int, j),
            base.data@ == blended_upto(orig, h as int, xy.data@, colours.data@, alpha, i as int),
            (alpha == ONE_BITS && all_finite(orig) && colours_exact(colours.data@)) ==> all_finite(
                base.data@,
            ),
            (alpha == ONE_BITS && all_finite(orig) && colours_exact(colours.data@)) ==> (forall|
                i2: int,
                c: int,
            |
                0 <= i2 < i as int && 0 <= c < 4 && last_listing(xy.data@, i as int, i2)
                    ==> #[trigger] holds_point_colour(
                    base.data@,
                    h as int,
                    xy.data@,
                    colours.data@,
                    i2,
                    c,
                )),
        decreases n - i,
    {
        proof {
            assert(xy.data.len() == xy.data@.len());
            assert(colours.data.len() == colours.data@.len());
            assert(base.data.len() == base.data@.len());
        }
        let x = xy.data[2 * i];
        let y = xy.data[2 * i + 1];
        if !((x as usize) < w && (y as usize) < h) {
            proof {
                assert(!point_in_bounds(xy.data@, w as int, h as int, i as int));
            }
            return Err(StackError::IndexOutOfBounds);
        }
        proof {
            assert(((x as int) * (h as int) + (y as int)) * 4 + 3
                < (w as int) * (h as int) * 4) by (nonlinear_arith)
                requires
                    (x as int) < (w as int),
                    (y as int) < (h as int),
                    0 <= x as int,
                    0 <= y as int,
            ;
        }
        let off = ((x as usize) * h + (y as usize)) * 4;

        let ghost prev = base.data@;
        let b0 = base.data[off];
        let b1 = base.data[off + 1];
        let b2 = base.data[off + 2];
        let b3 = base.data[off + 3];
        let c0 = colours.data[4 * i];
        let c1 = colours.data[4 * i + 1];
        let c2 = colours.data[4 * i + 2];
        let c3 = colours.data[4 * i + 3];
        let v0 = blend_channel(b0, c0, alpha);
        let v1 = blend_channel(b1, c1, alpha);
        let v2 = blend_channel(b2, c2, alpha);
        let v3 = blend_channel(b3, c3, alpha);
        base.data.set(off, v0);
        base.data.set(off + 1, v1);
        base.data.set(off + 2, v2);
        base.data.set(off + 3, v3);

        proof {
            let offi = off as int;
            let col = point_colour(colours.data@, i as int);
            assert(col.len() == 4);
            assert(base.data@ =~= blend_point(prev, offi, col, alpha));
            assert(offi == pixel_offset(h as int, point_x(xy.data@, i as int),
                point_y(xy.data@, i as int)));
            assert(base.data@ == blended_upto(orig, h as int, xy.data@, colours.data@, alpha,
                i as int + 1));
            if alpha == ONE_BITS && all_finite(orig) && colours_exact(colours.data@) {
                let xi = point_x(xy.data@, i as int);
                let yi = point_y(xy.data@, i as int);
                assert(is_finite_bits(b0) && is_finite_bits(b1) && is_finite_bits(b2)
                    && is_finite_bits(b3));
                assert(v0 == colours.data@[4 * (i as int)]);
                assert(v1 == colours.data@[4 * (i as int) + 1]);
                assert(v2 == colours.data@[4 * (i as int) + 2]);
                assert(v3 == colours.data@[4 * (i as int) + 3]);
                assert forall|j: int| 0 <= j < base.data@.len() implies is_finite_bits(
                    #[trigger] base.data@[j],
                ) by {
                    if !(offi <= j < offi + 4) {
                        assert(base.data@[j] == prev[j]);
                    }
                }
                assert(all_finite(base.data@));
                assert forall|i2: int, c: int|
                    0 <= i2 < i as int + 1 && 0 <= c < 4 && last_listing(
                        xy.data@,
                        i as int + 1,
                        i2,
                    ) implies #[trigger] holds_point_colour(
                    base.data@,
                    h as int,
                    xy.data@,
                    colours.data@,
                    i2,
                    c,
                ) by {
                    if i2 == i as int {
                        assert(base.data@[offi + c] == (if c == 0 {
                            v0
                        } else if c == 1 {
                            v1
                        } else if c == 2 {
                            v2
                        } else {
                            v3
                        }));
                    } else {
                        assert(last_listing(xy.data@, i as int, i2));
                        assert(holds_point_colour(prev, h as int, xy.data@, colours.data@, i2, c));
                        let px2 = point_x(xy.data@, i2);
                        let py2 = point_y(xy.data@, i2);
                        assert(point_in_bounds(xy.data@, w as int, h as int, i2));
                        assert(!(px2 == xi && py2 == yi));
                        lemma_offset_disjoint(h as int, px2, py2, xi, yi);
                        assert(0 <= pixel_offset(h as int, px2, py2) + c < prev.len())
                            by (nonlinear_arith)
                            requires
                                0 <= px2 < w as int,
                                0 <= py2 < h as int,
                                0 <= c < 4,
                                prev.len() == (w as int) * (h as int) * 4,
                        ;
                        assert(base.data@[pixel_offset(h as int, px2, py2) + c] == prev[
                            pixel_offset(h as int, px2, py2) + c]);
                    }
                }
            }
        }
        i += 1;
    }
    Ok(())
}

} // verus!
