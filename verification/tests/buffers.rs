use buddhabrot::accumulate::{accumulate_trajectory, apply_trajectory};
use buddhabrot::complex::ComplexFp;
use buddhabrot::pixel::Pixel;
use buddhabrot::reduce::{finalize, max_count, normalize, reduce_buffers};
use buddhabrot::sampling::zero_buffer;
use buddhabrot::trajectory::Trajectory;

fn px(r: u32, g: u32, b: u32) -> Pixel {
    Pixel { r, g, b }
}

#[test]
fn pixel_add_sums_channels() {
    let sum = px(1, 2, 3).add(px(10, 20, 30));
    assert_eq!(sum, px(11, 22, 33));
}

#[test]
fn pixel_add_saturates_instead_of_wrapping() {
    let sum = px(u32::MAX, u32::MAX - 1, 0).add(px(1, 5, 7));
    assert_eq!(sum, px(u32::MAX, u32::MAX, 7));
}

#[test]
fn pixel_max_picks_largest_channel() {
    assert_eq!(px(3, 7, 5).max(), 7);
    assert_eq!(px(9, 1, 2).max(), 9);
    assert_eq!(px(0, 0, 4).max(), 4);
    assert_eq!(px(0, 0, 0).max(), 0);
}

#[test]
fn reduction_is_order_independent() {
    let a = vec![px(1, 1, 1), px(0, 2, 0), px(5, 5, 5), px(0, 0, 0)];
    let b = vec![px(4, 0, 0), px(1, 1, 1), px(0, 0, 9), px(2, 2, 2)];
    let c = vec![px(0, 3, 0), px(7, 0, 7), px(1, 1, 1), px(0, 6, 0)];
    let orders: Vec<Vec<Vec<Pixel>>> = vec![
        vec![a.clone(), b.clone(), c.clone()],
        vec![c.clone(), a.clone(), b.clone()],
        vec![b.clone(), c.clone(), a.clone()],
        vec![c.clone(), b.clone(), a.clone()],
    ];
    let reference = reduce_buffers(&orders[0]);
    for order in &orders {
        assert_eq!(reduce_buffers(order), reference);
    }
    // And the normalized output is byte-for-byte identical too.
    let reference_bytes = finalize(&orders[0]);
    for order in &orders {
        assert_eq!(finalize(order), reference_bytes);
    }
}

#[test]
fn max_count_is_at_least_one() {
    let zeros = vec![px(0, 0, 0), px(0, 0, 0)];
    assert_eq!(max_count(&zeros), 1);
}

#[test]
fn max_count_finds_global_maximum_over_all_channels() {
    let buf = vec![px(3, 1, 2), px(0, 9, 0), px(4, 4, 4)];
    assert_eq!(max_count(&buf), 9);
}

#[test]
fn normalization_is_linear_and_peaks_at_255() {
    let buf = vec![px(9, 9, 9), px(3, 3, 3), px(0, 0, 0)];
    let bytes = normalize(&buf, 9);
    assert_eq!(
        bytes,
        vec![255, 255, 255, 255, 85, 85, 85, 255, 0, 0, 0, 255]
    );
    // Halves round up: 1 * 255 / 2 = 127.5 becomes 128.
    assert_eq!(normalize(&vec![px(1, 1, 1)], 2), vec![128, 128, 128, 255]);
    // Every channel value lies in [0, 255] by construction (u8), and the
    // pixel holding the global maximum maps to exactly 255.
    for quad in bytes.chunks(4) {
        assert_eq!(quad[3], 255);
    }
}

#[test]
fn degenerate_normalization_yields_black_image() {
    // No escaping trajectory: all counters zero, max defaults to 1, the
    // output is all black (alpha excepted), with no division by zero.
    let buffers = vec![vec![px(0, 0, 0), px(0, 0, 0)]];
    let (bytes, m) = finalize(&buffers);
    assert_eq!(m, 1);
    assert_eq!(bytes, vec![0, 0, 0, 255, 0, 0, 0, 255]);
}

#[test]
fn accumulation_counts_point_and_mirror() {
    let mut buf = zero_buffer(100 * 100);
    let p = ComplexFp { re: 32768, im: 19660 };
    accumulate_trajectory(&mut buf, &vec![p], 100, 100);
    assert_eq!(buf[6485], px(1, 1, 1));
    assert_eq!(buf[3585], px(1, 1, 1));
    let total: u64 = buf.iter().map(|c| c.r as u64).sum();
    assert_eq!(total, 2);
}

#[test]
fn accumulation_drops_pair_if_either_side_is_off_canvas() {
    // im = -1.0: the point itself is on canvas (bottom row) but its mirror
    // is not, so the pair contributes nothing.
    let mut buf = zero_buffer(100 * 100);
    let p = ComplexFp { re: 0, im: -65536 };
    accumulate_trajectory(&mut buf, &vec![p], 100, 100);
    let total: u64 = buf.iter().map(|c| c.r as u64).sum();
    assert_eq!(total, 0);
}

#[test]
fn bounded_trajectory_contributes_nothing() {
    // offset = 0 stays bounded forever: its recorded points must never reach
    // the buffer.
    let mut traj = Trajectory::new(50, ComplexFp { re: 0, im: 0 });
    traj.run(131072);
    let mut buf = zero_buffer(100 * 100);
    apply_trajectory(&mut buf, &traj, 131072, 100, 100);
    let total: u64 = buf.iter().map(|c| c.r as u64 + c.g as u64 + c.b as u64).sum();
    assert_eq!(total, 0);
}

#[test]
fn escaped_trajectory_contributes_its_points() {
    // offset = 0.5 + 0.5i escapes at the fifth iterate; of the five recorded
    // points exactly two have both their direct and mirrored projection on
    // canvas, so four cells gain one count each.
    let mut traj = Trajectory::new(50, ComplexFp { re: 32768, im: 32768 });
    traj.run(131072);
    assert_eq!(traj.points.len(), 5);
    let mut buf = zero_buffer(100 * 100);
    apply_trajectory(&mut buf, &traj, 131072, 100, 100);
    assert_eq!(buf[7585], px(1, 1, 1));
    assert_eq!(buf[2585], px(1, 1, 1));
    assert_eq!(buf[3723], px(1, 1, 1));
    assert_eq!(buf[6223], px(1, 1, 1));
    let total: u64 = buf.iter().map(|c| c.r as u64).sum();
    assert_eq!(total, 4);
}
