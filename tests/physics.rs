use motion_core::frame::PlacementUniform;
use motion_core::object::Placement;
use motion_core::physics::{Field, Kinetics, PhysicsError, Vector};

fn v(x: i64, y: i64) -> Vector {
    Vector { x, y }
}

#[test]
fn one_step_from_rest_is_half_a_kick() {
    let mut k = Kinetics::new(2000).unwrap();
    assert_eq!(k.update(vec![v(4000, 0)], Field {}, 1000), Ok(()));
    assert_eq!(k.velocity(), v(1000, 0));
    assert_eq!(k.acceleration(), v(2000, 0));
    assert_eq!(k.position(), v(0, 0));
}

#[test]
fn rest_without_forces_stays() {
    for dt in [0, 1, 1000, -250, 123456] {
        let mut k = Kinetics::new(1500).unwrap();
        assert_eq!(k.update(Vec::new(), Field {}, dt), Ok(()));
        assert_eq!(k.position(), v(0, 0));
        assert_eq!(k.velocity(), v(0, 0));
    }
}

#[test]
fn steady_force_matches_closed_form() {
    let mut k = Kinetics::new(2000).unwrap();
    k.update(vec![v(4000, -2000)], Field {}, 1000).unwrap();
    let v0 = k.velocity();
    for _ in 0..3 {
        k.update(vec![v(4000, -2000)], Field {}, 1000).unwrap();
    }
    // F/m = (2, -1) units per second squared; over three seconds: (6, -3).
    assert_eq!(k.velocity(), v(v0.x + 6000, v0.y - 3000));
    assert_eq!(k.velocity(), v(7000, -3500));
}

#[test]
fn forces_are_summed() {
    let mut k = Kinetics::new(1000).unwrap();
    k.update(vec![v(1000, 0), v(0, 3000), v(-500, -1000)], Field {}, 2000).unwrap();
    assert_eq!(k.acceleration(), v(500, 2000));
    assert_eq!(k.velocity(), v(500, 2000));
}

#[test]
fn position_advances_by_velocity_itself() {
    let mut k = Kinetics::new(2000).unwrap();
    k.update(vec![v(4000, 0)], Field {}, 500).unwrap();
    assert_eq!(k.velocity(), v(500, 0));
    k.update(vec![v(4000, 0)], Field {}, 500).unwrap();
    assert_eq!(k.position(), v(1000, 0));
    assert_eq!(k.velocity(), v(1500, 0));
}

#[test]
fn non_positive_mass_is_rejected() {
    assert!(matches!(Kinetics::new(0), Err(PhysicsError::NonPositiveMass)));
    assert!(matches!(Kinetics::new(-5), Err(PhysicsError::NonPositiveMass)));
    assert_eq!(Kinetics::new(7).unwrap().mass(), 7);
}

#[test]
fn overflow_leaves_state_unchanged() {
    let mut k = Kinetics::new(1000).unwrap();
    k.update(vec![v(1000, 1000)], Field {}, 1000).unwrap();
    let before = (k.position(), k.velocity(), k.acceleration());
    assert_eq!(k.update(vec![v(i64::MAX, 0), v(1, 0)], Field {}, 1000), Err(PhysicsError::Overflow));
    assert_eq!((k.position(), k.velocity(), k.acceleration()), before);
    assert_eq!(k.update(vec![v(i64::MAX, 0)], Field {}, 1000), Ok(()));
    let before = (k.position(), k.velocity(), k.acceleration());
    assert_eq!(k.update(vec![v(i64::MAX, 0)], Field {}, 3000), Err(PhysicsError::Overflow));
    assert_eq!((k.position(), k.velocity(), k.acceleration()), before);
}

#[test]
fn only_the_sum_of_forces_counts() {
    for forces in [vec![v(i64::MAX, 0), v(1, 0), v(-2, 0)], vec![v(1, 0), v(-2, 0), v(i64::MAX, 0)]] {
        let mut k = Kinetics::new(1000).unwrap();
        assert_eq!(k.update(forces, Field {}, 0), Ok(()));
        assert_eq!(k.acceleration(), v(i64::MAX - 1, 0));
    }
    let mut k = Kinetics::new(i64::MAX).unwrap();
    let r = k.update(vec![v(i64::MAX, 0), v(i64::MAX, 0), v(i64::MIN, 0)], Field {}, 0);
    assert_eq!(r, Ok(()));
    assert_eq!(k.acceleration(), v(999, 0));
}

#[test]
fn vector_arithmetic() {
    let mut a = Vector::new();
    assert_eq!(a, v(0, 0));
    a.add(3, -4);
    assert_eq!((a.get_x(), a.get_y()), (3, -4));
    a.add_vector(v(10, 10));
    assert_eq!(a, v(13, 6));
    a.sub_vector(v(3, 1));
    assert_eq!(a, v(10, 5));
    a.mul(1500);
    assert_eq!(a, v(15, 7));
    a.mul(-2000);
    assert_eq!(a, v(-30, -14));
}

#[test]
fn magnitude_rounds_down() {
    assert_eq!(v(3000, 4000).get_magnitude(), 5000);
    assert_eq!(v(1, 1).get_magnitude(), 1);
    assert_eq!(v(0, 0).get_magnitude(), 0);
    assert_eq!(v(i64::MIN, i64::MIN).get_magnitude(), 13043817825332782212);
}

#[test]
fn normalize_scales_to_one_unit() {
    let mut a = v(3000, -4000);
    assert_eq!(a.normalize(), Ok(()));
    assert_eq!(a, v(600, -800));
    let mut b = v(0, 7);
    assert_eq!(b.normalize(), Ok(()));
    assert_eq!(b, v(0, 1000));
}

#[test]
fn normalize_small_vectors_to_unit_length() {
    let cases = [
        (v(1, 1), v(707, 707)),
        (v(1, 2), v(447, 894)),
        (v(2, 3), v(554, 832)),
        (v(-1, 0), v(-1000, 0)),
        (v(i64::MIN, i64::MIN), v(-707, -707)),
        (v(i64::MAX, 1), v(1000, 0)),
    ];
    for (input, expected) in cases {
        let mut a = input;
        assert_eq!(a.normalize(), Ok(()));
        assert_eq!(a, expected);
        let len_sq = a.x * a.x + a.y * a.y;
        assert!(998 * 998 <= len_sq && len_sq <= 1002 * 1002);
    }
}

#[test]
fn normalize_zero_is_an_error() {
    let mut z = Vector::new();
    assert_eq!(z.normalize(), Err(PhysicsError::ZeroMagnitude));
    assert_eq!(z, v(0, 0));
}

#[test]
fn payload_round_trip_after_step() {
    let mut k = Kinetics::new(500).unwrap();
    k.update(vec![v(250, -125)], Field {}, 1000).unwrap();
    k.update(vec![v(250, -125)], Field {}, 1000).unwrap();
    let p = Placement::from_kinetics(&k);
    let mut u = PlacementUniform::new();
    u.update(&p);
    assert_eq!(u.position(), (k.position().x, k.position().y, 0));
    assert_eq!(u.position(), (500, -250, 0));
    assert_eq!(u.color, [0, 500, 500, 1000]);
    assert_eq!(p.placement_vector(), [500, -250, 0, 0]);
}

#[test]
fn from_rest_velocity_lags_by_half_a_kick() {
    // F/m = 2 units per second squared, dt = 1 s: after n steps from rest
    // the velocity is 2 * (n - 1/2).
    let mut k = Kinetics::new(2000).unwrap();
    for n in 1..=5i64 {
        k.update(vec![v(4000, 0)], Field {}, 1000).unwrap();
        assert_eq!(k.velocity(), v(2000 * n - 1000, 0));
    }
}
