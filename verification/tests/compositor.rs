use colourtime::arrays::{CoordArray, ValueArray};
use colourtime::compositor::{stack, StackError};

fn image(w: usize, h: usize, values: &[f64]) -> ValueArray {
    assert_eq!(values.len(), w * h * 4);
    ValueArray {
        dims: vec![w, h, 4],
        data: values.iter().map(|v| v.to_bits()).collect(),
    }
}

fn zeros(w: usize, h: usize) -> ValueArray {
    ValueArray {
        dims: vec![w, h, 4],
        data: vec![0f64.to_bits(); w * h * 4],
    }
}

fn coords(points: &[(u16, u16)]) -> CoordArray {
    let mut data = Vec::new();
    for &(x, y) in points {
        data.push(x);
        data.push(y);
    }
    CoordArray {
        dims: vec![points.len(), 2],
        data,
    }
}

fn colour_rows(rows: &[[f64; 4]]) -> ValueArray {
    let mut data = Vec::new();
    for row in rows {
        for v in row {
            data.push(v.to_bits());
        }
    }
    ValueArray {
        dims: vec![rows.len(), 4],
        data,
    }
}

fn pixel(img: &ValueArray, x: usize, y: usize) -> [f64; 4] {
    let h = img.dims[1];
    let off = (x * h + y) * 4;
    [
        f64::from_bits(img.data[off]),
        f64::from_bits(img.data[off + 1]),
        f64::from_bits(img.data[off + 2]),
        f64::from_bits(img.data[off + 3]),
    ]
}

#[test]
fn end_to_end_half_alpha() {
    let mut base = zeros(2, 2);
    let xy = coords(&[(0, 0)]);
    let colours = colour_rows(&[[1.0, 1.0, 1.0, 1.0]]);
    let res = stack(&mut base, &xy, &colours, 0.5f64.to_bits());
    assert_eq!(res, Ok(()));
    assert_eq!(pixel(&base, 0, 0), [0.5, 0.5, 0.5, 0.5]);
    assert_eq!(pixel(&base, 1, 1), [0.0, 0.0, 0.0, 0.0]);
    assert_eq!(pixel(&base, 0, 1), [0.0, 0.0, 0.0, 0.0]);
    assert_eq!(pixel(&base, 1, 0), [0.0, 0.0, 0.0, 0.0]);
}

#[test]
fn blend_changes_every_operand() {
    // No operand of the formula survives unchanged: (1 - 0.25) = 0.75,
    // 0.75 * 0.5 = 0.375, 0.25 * 0.75 = 0.1875, and their sum is 0.5625,
    // each distinct from both of its operands.
    let mut base = image(1, 1, &[0.5, 0.5, 0.5, 0.5]);
    let xy = coords(&[(0, 0)]);
    let colours = colour_rows(&[[0.75, 0.75, 0.75, 0.75]]);
    let res = stack(&mut base, &xy, &colours, 0.25f64.to_bits());
    assert_eq!(res, Ok(()));
    assert_eq!(pixel(&base, 0, 0), [0.5625, 0.5625, 0.5625, 0.5625]);
}

#[test]
fn full_opacity_overwrites() {
    let mut base = image(2, 2, &[
        0.1, 0.2, 0.3, 0.4,
        0.5, 0.6, 0.7, 0.8,
        0.9, 1.0, 0.25, 0.75,
        0.0, 0.125, 0.375, 1.0,
    ]);
    let xy = coords(&[(0, 1), (1, 0)]);
    let colours = colour_rows(&[[0.2, 0.4, 0.6, 0.8], [1.0, 0.0, 0.5, 1.0]]);
    let res = stack(&mut base, &xy, &colours, 1.0f64.to_bits());
    assert_eq!(res, Ok(()));
    assert_eq!(pixel(&base, 0, 1), [0.2, 0.4, 0.6, 0.8]);
    assert_eq!(pixel(&base, 1, 0), [1.0, 0.0, 0.5, 1.0]);
    assert_eq!(pixel(&base, 0, 0), [0.1, 0.2, 0.3, 0.4]);
    assert_eq!(pixel(&base, 1, 1), [0.0, 0.125, 0.375, 1.0]);
}

#[test]
fn full_opacity_reblend_is_idempotent() {
    let mut base = image(1, 1, &[0.3, 0.6, 0.9, 0.5]);
    let xy = coords(&[(0, 0)]);
    let colours = colour_rows(&[[0.2, 0.4, 0.6, 0.8]]);
    assert_eq!(stack(&mut base, &xy, &colours, 1.0f64.to_bits()), Ok(()));
    let after_once = base.data.clone();
    assert_eq!(stack(&mut base, &xy, &colours, 1.0f64.to_bits()), Ok(()));
    assert_eq!(base.data, after_once);
}

#[test]
fn partial_opacity_converges_without_reaching() {
    // Repeated blending with alpha 0.5 moves the pixel strictly toward the
    // colour; a handful of applications never reaches it.
    let mut base = zeros(1, 1);
    let xy = coords(&[(0, 0)]);
    let colours = colour_rows(&[[1.0, 1.0, 1.0, 1.0]]);
    let alpha = 0.5f64.to_bits();
    let mut previous = 0.0;
    for _ in 0..10 {
        assert_eq!(stack(&mut base, &xy, &colours, alpha), Ok(()));
        let current = pixel(&base, 0, 0)[0];
        assert!(current > previous);
        assert!(current < 1.0);
        previous = current;
    }
}

#[test]
fn duplicate_coordinates_blend_in_order() {
    let orig = 0.0;
    let a = 1.0;
    let b = 0.25;
    let alpha: f64 = 0.5;
    let mut base = zeros(1, 1);
    let xy = coords(&[(0, 0), (0, 0)]);
    let colours = colour_rows(&[[a, a, a, a], [b, b, b, b]]);
    assert_eq!(stack(&mut base, &xy, &colours, alpha.to_bits()), Ok(()));
    let sequential = (1.0 - alpha) * ((1.0 - alpha) * orig + alpha * a) + alpha * b;
    assert_eq!(pixel(&base, 0, 0), [sequential; 4]);
    // Not a single blend of the later colour alone, and not an average.
    assert_ne!(sequential, (1.0 - alpha) * orig + alpha * b);
    assert_ne!(sequential, (1.0 - alpha) * orig + alpha * ((a + b) / 2.0));

    // The reversed order gives a different result: order is observable.
    let mut reversed = zeros(1, 1);
    let colours_rev = colour_rows(&[[b, b, b, b], [a, a, a, a]]);
    assert_eq!(stack(&mut reversed, &xy, &colours_rev, alpha.to_bits()), Ok(()));
    assert_ne!(pixel(&reversed, 0, 0), pixel(&base, 0, 0));
}

#[test]
fn wrong_base_shape_is_rejected_without_mutation() {
    let mut base = ValueArray {
        dims: vec![10, 10, 3],
        data: vec![0.25f64.to_bits(); 300],
    };
    let before = base.data.clone();
    let xy = coords(&[(0, 0)]);
    let colours = colour_rows(&[[1.0, 1.0, 1.0, 1.0]]);
    let res = stack(&mut base, &xy, &colours, 0.5f64.to_bits());
    assert_eq!(res, Err(StackError::BaseShape));
    assert_eq!(base.data, before);
}

#[test]
fn wrong_coord_shape_is_rejected_without_mutation() {
    let mut base = zeros(2, 2);
    let before = base.data.clone();
    let xy = CoordArray {
        dims: vec![5, 3],
        data: vec![0; 15],
    };
    let colours = colour_rows(&[[1.0; 4]; 5]);
    let res = stack(&mut base, &xy, &colours, 0.5f64.to_bits());
    assert_eq!(res, Err(StackError::CoordShape));
    assert_eq!(base.data, before);
}

#[test]
fn wrong_colour_shape_is_rejected_without_mutation() {
    let mut base = zeros(2, 2);
    let before = base.data.clone();
    let xy = coords(&[(0, 0)]);
    let colours = ValueArray {
        dims: vec![1, 3],
        data: vec![1.0f64.to_bits(); 3],
    };
    let res = stack(&mut base, &xy, &colours, 0.5f64.to_bits());
    assert_eq!(res, Err(StackError::ColourShape));
    assert_eq!(base.data, before);
}

#[test]
fn row_count_mismatch_is_rejected_without_mutation() {
    let mut base = zeros(2, 2);
    let before = base.data.clone();
    let xy = coords(&[(0, 0), (1, 1), (0, 1), (1, 0), (0, 0)]);
    let colours = colour_rows(&[[1.0; 4]; 4]);
    let res = stack(&mut base, &xy, &colours, 0.5f64.to_bits());
    assert_eq!(res, Err(StackError::RowCountMismatch));
    assert_eq!(base.data, before);
}

#[test]
fn alpha_boundaries() {
    let xy = coords(&[(0, 0)]);
    let colours = colour_rows(&[[1.0; 4]]);
    for alpha in [0.0, -0.5, -0.0, 1.0000001, 2.0, f64::NAN, f64::INFINITY, f64::NEG_INFINITY] {
        let mut base = zeros(2, 2);
        let before = base.data.clone();
        let res = stack(&mut base, &xy, &colours, alpha.to_bits());
        assert_eq!(res, Err(StackError::AlphaRange), "alpha {alpha} must be rejected");
        assert_eq!(base.data, before);
    }
    for alpha in [1.0f64, 0.5, 1e-300, 5e-324] {
        let mut base = zeros(2, 2);
        let res = stack(&mut base, &xy, &colours, alpha.to_bits());
        assert_eq!(res, Ok(()), "alpha {alpha} must be accepted");
    }
}

#[test]
fn out_of_bounds_coordinate_fails_after_prefix() {
    // Width 2: x = 2 is the first coordinate past the end.
    let mut base = zeros(2, 2);
    let xy = coords(&[(0, 0), (2, 0), (1, 1)]);
    let colours = colour_rows(&[[1.0; 4], [1.0; 4], [1.0; 4]]);
    let res = stack(&mut base, &xy, &colours, 0.5f64.to_bits());
    assert_eq!(res, Err(StackError::IndexOutOfBounds));
    // The point before the bad coordinate is already blended; the point
    // after it is not reached.
    assert_eq!(pixel(&base, 0, 0), [0.5, 0.5, 0.5, 0.5]);
    assert_eq!(pixel(&base, 1, 1), [0.0, 0.0, 0.0, 0.0]);

    // The y axis is checked too.
    let mut tall = zeros(3, 2);
    let xy_bad_y = coords(&[(0, 2)]);
    let one_colour = colour_rows(&[[1.0; 4]]);
    assert_eq!(
        stack(&mut tall, &xy_bad_y, &one_colour, 0.5f64.to_bits()),
        Err(StackError::IndexOutOfBounds)
    );
}

#[test]
fn untouched_pixels_keep_exact_bits() {
    // A NaN parked at an unlisted pixel survives byte for byte.
    let nan_bits = 0x7FF8_0000_0000_0001u64;
    let mut base = zeros(2, 1);
    base.data[4] = nan_bits;
    let xy = coords(&[(0, 0)]);
    let colours = colour_rows(&[[1.0; 4]]);
    assert_eq!(stack(&mut base, &xy, &colours, 0.5f64.to_bits()), Ok(()));
    assert_eq!(base.data[4], nan_bits);
}

#[test]
fn error_messages_name_the_constraint() {
    assert_eq!(StackError::BaseShape.message(), "base must have shape (w, h, 4)");
    assert_eq!(StackError::CoordShape.message(), "xy must have shape (n, 2)");
    assert_eq!(StackError::ColourShape.message(), "colours must have shape (n, 4)");
    assert_eq!(
        StackError::RowCountMismatch.message(),
        "xy and colours must have the same number of rows"
    );
    assert_eq!(StackError::AlphaRange.message(), "alpha must be in the range ]0, 1]");
    assert_eq!(
        StackError::IndexOutOfBounds.message(),
        "coordinate out of bounds of the image"
    );
}

#[test]
fn blend_channel_matches_the_formula() {
    let r = colourtime::bits::blend_channel(
        0.5f64.to_bits(),
        0.75f64.to_bits(),
        0.25f64.to_bits(),
    );
    assert_eq!(f64::from_bits(r), (1.0 - 0.25) * 0.5 + 0.25 * 0.75);
}
