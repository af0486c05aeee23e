use buddhabrot::complex::ComplexFp;
use buddhabrot::project::{get_pixel, get_pixel_conj};

// 0.5 + 0.3i in raw units of 1/65536 (0.3 rounded down to the grid).
fn sample_point() -> ComplexFp {
    ComplexFp { re: 32768, im: 19660 }
}

#[test]
fn projection_is_deterministic() {
    let p = sample_point();
    let a = get_pixel(&p, 100, 100);
    let b = get_pixel(&p, 100, 100);
    assert_eq!(a, b);
    assert_eq!(a, Some(6485));
}

#[test]
fn projection_left_edge_is_column_zero() {
    // re = -2.5 exactly.
    let p = ComplexFp { re: -163840, im: 0 };
    let idx = get_pixel(&p, 100, 100).unwrap();
    assert_eq!(idx % 100, 0);
}

#[test]
fn projection_right_edge_is_off_canvas() {
    // re = 1.0 exactly: its column would be `width`, one past the last.
    let p = ComplexFp { re: 65536, im: 0 };
    assert_eq!(get_pixel(&p, 100, 100), None);
}

#[test]
fn projection_bottom_edge_is_row_zero() {
    // im = -1.0 exactly.
    let p = ComplexFp { re: 0, im: -65536 };
    let idx = get_pixel(&p, 100, 100).unwrap();
    assert_eq!(idx / 100, 0);
}

#[test]
fn projection_top_edge_is_off_canvas() {
    // im = 1.0 exactly.
    let p = ComplexFp { re: 0, im: 65536 };
    assert_eq!(get_pixel(&p, 100, 100), None);
}

#[test]
fn projection_outside_rectangle_is_off_canvas() {
    let far = ComplexFp { re: 400000, im: 0 };
    assert_eq!(get_pixel(&far, 100, 100), None);
    let low = ComplexFp { re: 0, im: -70000 };
    assert_eq!(get_pixel(&low, 100, 100), None);
}

#[test]
fn mirror_projection_reflects_row() {
    // p = 0.5 + 0.3i on a 100x100 canvas: same column, row mirrored to
    // height - 1 - row.
    let p = sample_point();
    let direct = get_pixel(&p, 100, 100).unwrap();
    let mirror = get_pixel_conj(&p, 100, 100).unwrap();
    let (dc, dr) = (direct % 100, direct / 100);
    let (mc, mr) = (mirror % 100, mirror / 100);
    assert_eq!(dc, mc);
    assert_eq!(mr, 100 - 1 - dr);
    assert_eq!(direct, 6485);
    assert_eq!(mirror, 3585);
}

#[test]
fn mirror_projection_matches_conjugate_projection() {
    let p = sample_point();
    let conj = ComplexFp { re: p.re, im: -p.im };
    assert_eq!(get_pixel_conj(&p, 100, 100), get_pixel(&conj, 100, 100));
}
