use buddhabrot::complex::ComplexFp;
use buddhabrot::trajectory::Trajectory;

// 2.0 as an escape radius, in raw units of 1/65536.
const BAIL_TWO: i64 = 131072;

#[test]
fn bounded_seed_never_escapes_and_stops_at_cap() {
    // offset = 0: the orbit stays at 0 forever, so the run stops only at the
    // length cap, after at most max_length - 1 recorded points.
    let mut traj = Trajectory::new(50, ComplexFp { re: 0, im: 0 });
    traj.run(BAIL_TWO);
    assert_eq!(traj.iteration, 49);
    assert_eq!(traj.points.len(), 49);
    assert!(traj.points.len() <= 50);
    assert_eq!(traj.current, ComplexFp { re: 0, im: 0 });
}

#[test]
fn escaping_seed_stops_on_first_escape() {
    // offset = 1.0: iterates 1, 2, 5, ... — 2.0 sits exactly on the radius
    // (not an escape), 5.0 escapes, so exactly three points are recorded.
    let mut traj = Trajectory::new(50, ComplexFp { re: 65536, im: 0 });
    traj.run(BAIL_TWO);
    assert_eq!(traj.iteration, 3);
    assert_eq!(
        traj.points,
        vec![
            ComplexFp { re: 65536, im: 0 },
            ComplexFp { re: 131072, im: 0 },
            ComplexFp { re: 327680, im: 0 },
        ]
    );
}

#[test]
fn length_cap_truncates_even_an_escaping_seed() {
    let mut traj = Trajectory::new(2, ComplexFp { re: 65536, im: 0 });
    traj.run(BAIL_TWO);
    assert_eq!(traj.iteration, 1);
    assert_eq!(traj.points.len(), 1);
}

#[test]
fn length_one_records_nothing() {
    let mut traj = Trajectory::new(1, ComplexFp { re: 65536, im: 0 });
    traj.run(BAIL_TWO);
    assert_eq!(traj.points.len(), 0);
    assert_eq!(traj.iteration, 0);
}

#[test]
fn advance_respects_the_cap() {
    let mut traj = Trajectory::new(3, ComplexFp { re: 6553, im: 6553 });
    assert!(traj.advance());
    assert!(!traj.advance());
    assert!(!traj.advance());
    assert_eq!(traj.points.len(), 2);
    assert!(traj.is_done());
}
