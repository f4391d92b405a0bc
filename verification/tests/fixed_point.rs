use planetary::sim::fixed::{Fixed, FRACTION_BITS, ONE};
use planetary::sim::object::Object;
use planetary::sim::scalar::Scalar;
use planetary::sim::solver::{Solver, SolverError};
use planetary::sim::vec2::Vec2;

fn fx(n: i64) -> Fixed {
    Fixed { raw: n * ONE }
}

fn halves(n: i64) -> Fixed {
    Fixed { raw: n * ONE / 2 }
}

fn v(x: i64, y: i64) -> Vec2<Fixed> {
    Vec2 { x: fx(x), y: fx(y) }
}

#[test]
fn one_has_sixteen_fraction_bits() {
    assert_eq!(FRACTION_BITS, 16);
    assert_eq!(ONE, 1 << FRACTION_BITS);
    assert_eq!(Fixed::from_u32(1), Fixed { raw: 65536 });
    assert_eq!(Fixed::from_u32(3), Fixed { raw: 196608 });
    assert_eq!(Fixed::from_u32(0), Fixed { raw: 0 });
    assert_eq!(Fixed::from_u32(u32::MAX), Fixed { raw: 4294967295 * 65536 });
}

#[test]
fn sums_and_differences_are_clamped() {
    assert_eq!(fx(2).plus(fx(3)), fx(5));
    assert_eq!(fx(2).minus(fx(3)), fx(-1));
    let top = Fixed { raw: i64::MAX };
    let bottom = Fixed { raw: i64::MIN };
    assert_eq!(top.plus(fx(1)), top);
    assert_eq!(bottom.plus(fx(-1)), bottom);
    assert_eq!(bottom.minus(fx(1)), bottom);
    assert_eq!(top.minus(fx(-1)), top);
    assert_eq!(top.plus(bottom), Fixed { raw: -1 });
    assert_eq!(fx(0).minus(bottom), top);
}

#[test]
fn negation_and_absolute_value_are_clamped() {
    assert_eq!(fx(4).neg(), fx(-4));
    assert_eq!(fx(-4).neg(), fx(4));
    assert_eq!(fx(-4).abs(), fx(4));
    assert_eq!(fx(4).abs(), fx(4));
    assert_eq!(Fixed { raw: i64::MIN }.neg(), Fixed { raw: i64::MAX });
    assert_eq!(Fixed { raw: i64::MIN }.abs(), Fixed { raw: i64::MAX });
}

#[test]
fn products_round_towards_zero() {
    assert_eq!(fx(6).times(fx(7)), fx(42));
    assert_eq!(halves(3).times(halves(-3)), Fixed { raw: -147456 });
    assert_eq!(Fixed { raw: 1 }.times(Fixed { raw: 1 }), Fixed { raw: 0 });
    assert_eq!(Fixed { raw: -1 }.times(Fixed { raw: 1 }), Fixed { raw: 0 });
    assert_eq!(Fixed { raw: 3 }.times(halves(1)), Fixed { raw: 1 });
    assert_eq!(Fixed { raw: -3 }.times(halves(1)), Fixed { raw: -1 });
}

#[test]
fn products_are_clamped() {
    let top = Fixed { raw: i64::MAX };
    let bottom = Fixed { raw: i64::MIN };
    assert_eq!(top.times(fx(2)), top);
    assert_eq!(top.times(fx(-2)), bottom);
    assert_eq!(bottom.times(bottom), top);
    assert_eq!(bottom.times(fx(1)), bottom);
    assert_eq!(top.times(fx(1)), top);
}

#[test]
fn quotients_round_towards_zero() {
    assert_eq!(fx(42).over(fx(7)), fx(6));
    assert_eq!(fx(1).over(fx(2)), halves(1));
    assert_eq!(fx(1).over(fx(3)), Fixed { raw: 21845 });
    assert_eq!(fx(-1).over(fx(3)), Fixed { raw: -21845 });
    assert_eq!(fx(1).over(fx(-3)), Fixed { raw: -21845 });
    assert_eq!(fx(-1).over(fx(-3)), Fixed { raw: 21845 });
}

#[test]
fn division_by_zero_gives_a_bound() {
    assert_eq!(fx(1).over(fx(0)), Fixed { raw: i64::MAX });
    assert_eq!(fx(-1).over(fx(0)), Fixed { raw: i64::MIN });
    assert_eq!(fx(0).over(fx(0)), fx(0));
}

#[test]
fn quotients_are_clamped() {
    let top = Fixed { raw: i64::MAX };
    let bottom = Fixed { raw: i64::MIN };
    assert_eq!(top.over(halves(1)), top);
    assert_eq!(top.over(halves(-1)), bottom);
    assert_eq!(bottom.over(Fixed { raw: 1 }), bottom);
    assert_eq!(bottom.over(Fixed { raw: -1 }), top);
}

#[test]
fn square_roots_round_down() {
    assert_eq!(fx(49).sqrt(), fx(7));
    assert_eq!(fx(0).sqrt(), fx(0));
    assert_eq!(fx(2).sqrt(), Fixed { raw: 92681 });
    assert_eq!(Fixed { raw: 1 }.sqrt(), Fixed { raw: 256 });
    assert_eq!(fx(-9).sqrt(), fx(0));
    // the largest value: sqrt(2^63 - 1) * 2^8, rounded down
    assert_eq!(Fixed { raw: i64::MAX }.sqrt(), Fixed { raw: 777472127993 });
}

#[test]
fn square_root_is_the_largest_whose_square_fits() {
    for raw in [1_i64, 2, 3, 65535, 65536, 65537, 123456789, 1 << 40, i64::MAX] {
        let root = Fixed { raw }.sqrt().raw as i128;
        let scaled = (raw as i128) << 16;
        assert!(root * root <= scaled);
        assert!((root + 1) * (root + 1) > scaled);
    }
}

#[test]
fn order_goes_by_the_raw_value() {
    assert!(fx(1).less(fx(2)));
    assert!(!fx(2).less(fx(2)));
    assert!(!fx(3).less(fx(2)));
    assert!(fx(-3).less(fx(0)));
}

#[test]
fn fixed_vectors() {
    assert_eq!(v(3, 4).magnitude(), fx(5));
    assert_eq!(Vec2::dist_scalar(v(1, 1), v(4, 5)), fx(5));
    assert_eq!(v(3, 4) + v(1, 1), v(4, 5));
    assert_eq!(v(0, 8).normalize(), v(0, 1));
    assert_eq!(v(0, 0).normalize(), v(0, 0));
}

#[test]
fn fixed_center_of_mass() {
    let mut solver: Solver<Fixed> = Solver::new();
    assert_eq!(solver.center_of_mass(), None);
    solver.add_object(v(0, 0), v(0, 0), false, fx(3)).unwrap();
    solver.add_object(v(10, 0), v(0, 0), false, fx(3)).unwrap();
    assert_eq!(solver.center_of_mass(), Some(v(5, 0)));
}

#[test]
fn fixed_mass_must_be_positive() {
    let mut solver: Solver<Fixed> = Solver::new();
    assert_eq!(solver.add_object(v(0, 0), v(0, 0), false, fx(0)), Err(SolverError::InvalidBody));
    assert_eq!(solver.add_object(v(0, 0), v(0, 0), false, fx(-1)), Err(SolverError::InvalidBody));
    assert_eq!(solver.add_object(v(0, 0), v(0, 0), false, Fixed { raw: 1 }), Ok(()));
    assert_eq!(solver.bodies().len(), 1);
}

#[test]
fn fixed_force_and_step() {
    let mut solver: Solver<Fixed> = Solver::new();
    solver.add_object(v(0, 0), v(0, 0), false, fx(2)).unwrap();
    solver.add_object(v(3, 4), v(0, 0), true, fx(3)).unwrap();
    solver.solve_accelerations();
    assert_eq!(solver.bodies()[0].acceleration, v(72, 96));
    assert_eq!(solver.bodies()[1].acceleration, v(0, 0));
    solver.solve_euler(halves(1));
    // velocity: (72, 96) / 2 / 2; position: velocity / 2
    assert_eq!(solver.bodies()[0].velocity, v(18, 24));
    assert_eq!(solver.bodies()[0].position, v(9, 12));
    assert_eq!(solver.bodies()[1].position, v(3, 4));
}

#[test]
fn fixed_merge_and_sink() {
    let mut solver: Solver<Fixed> = Solver::new();
    solver.add_object(v(0, 0), v(1, 0), false, fx(4)).unwrap();
    solver.add_object(v(1, 0), v(-1, 2), false, fx(12)).unwrap();
    solver.add_object(v(100, 0), v(0, 0), true, fx(9)).unwrap();
    solver.add_object(v(101, 0), v(5, 5), false, fx(1)).unwrap();
    let collisions = solver.destroy_collisions();
    assert_eq!(collisions, vec![[0, 1], [1, 2]]);
    assert_eq!(solver.bodies().len(), 2);
    assert_eq!(
        solver.bodies()[0],
        Object {
            position: v(0, 0),
            velocity: Vec2 { x: halves(-1), y: halves(3) },
            acceleration: v(0, 0),
            constant_pos: false,
            mass: fx(16),
        }
    );
    assert_eq!(
        solver.bodies()[1],
        Object { position: v(100, 0), velocity: v(0, 0), acceleration: v(0, 0), constant_pos: true, mass: fx(9) }
    );
}

#[test]
fn fixed_trajectory() {
    let mut solver: Solver<Fixed> = Solver::new();
    let candidate =
        Object { position: v(0, 0), velocity: v(2, 4), acceleration: v(0, 0), constant_pos: false, mass: fx(1) };
    assert_eq!(solver.trajectory(candidate, 2), vec![v(0, 0), v(1, 2), v(2, 4), v(3, 6)]);
    solver.add_object(v(2, 4), v(0, 0), true, fx(1)).unwrap();
    // radii 1 and 1: the second position, (1, 2), is nearer than 2 to the body
    let candidate = Object { velocity: v(2, 4), ..candidate };
    assert_eq!(solver.trajectory(candidate, 2).len(), 0 + 1);
}
