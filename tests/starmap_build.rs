use std::cell::Cell;

use starmap::builder::{StarmapBuilder, DEFAULT_MAX_ATTEMPTS};
use starmap::planet::{distance_between, Planet};
use starmap::starmap::{MapError, Starmap2D};

fn scatter(id: usize, attempt: u64) -> Planet {
    let mut h: u64 = (id as u64).wrapping_mul(0x9E37_79B9_7F4A_7C15) ^ attempt.wrapping_mul(0xC2B2_AE3D_27D4_EB4F);
    h ^= h >> 29;
    h = h.wrapping_mul(0xBF58_476D_1CE4_E5B9);
    h ^= h >> 32;
    let x = (h % 1400) as i32;
    let y = ((h >> 20) % 1400) as i32;
    Planet::new(id, x, y)
}

fn spaced(a: &Planet, b: &Planet) -> bool {
    a.is_spaced_within(b, 100, 1000)
}

#[test]
fn build_respects_validator_for_every_pair() {
    let released = Cell::new(0usize);
    let map = Starmap2D::new(10)
        .build(scatter, spaced, |_p: Planet| released.set(released.get() + 1))
        .unwrap();
    let ps = map.get_planets();
    assert_eq!(ps.len(), 10);
    for i in 0..ps.len() {
        assert_eq!(ps[i].id, i);
        for j in 0..ps.len() {
            if i != j {
                assert!(spaced(&ps[i], &ps[j]));
            }
        }
    }
}

#[test]
fn build_with_unsatisfiable_validator_fails() {
    let generated = Cell::new(0usize);
    let released = Cell::new(0usize);
    let r = StarmapBuilder::new(3).with_max_attempts(5).build(
        |id: usize, attempt: u64| {
            generated.set(generated.get() + 1);
            scatter(id, attempt)
        },
        |_a: &Planet, _b: &Planet| false,
        |_p: Planet| released.set(released.get() + 1),
    );
    assert_eq!(r.err(), Some(MapError::ConstructionFailure));
    // one accepted body and five rejected candidates, each released once
    assert_eq!(generated.get(), 6);
    assert_eq!(released.get(), 6);
}

#[test]
fn build_of_zero_bodies_is_empty() {
    let map = Starmap2D::new(0).build(scatter, spaced, |_p: Planet| ()).unwrap();
    assert_eq!(map.len(), 0);
    assert!(!map.destroyed());
}

#[test]
fn build_without_attempts_fails() {
    let r = StarmapBuilder::new(1).with_max_attempts(0).build(scatter, spaced, |_p: Planet| ());
    assert_eq!(r.err(), Some(MapError::ConstructionFailure));
}

#[test]
fn build_with_permissive_validator_takes_first_candidates() {
    let generated = Cell::new(0usize);
    let map = Starmap2D::new(4)
        .build(
            |id: usize, attempt: u64| {
                generated.set(generated.get() + 1);
                Planet::new(99, id as i32, attempt as i32)
            },
            |_a: &Planet, _b: &Planet| true,
            |_p: Planet| panic!("nothing is rejected"),
        )
        .unwrap();
    assert_eq!(generated.get(), 4);
    for (i, p) in map.get_planets().iter().enumerate() {
        assert_eq!(p.id, i);
        assert_eq!((p.x, p.y), (i as i32, 0));
    }
}

#[test]
fn builder_defaults() {
    let b = Starmap2D::new(7);
    assert_eq!(b.count, 7);
    assert_eq!(b.max_attempts, DEFAULT_MAX_ATTEMPTS);
    assert_eq!(b.with_max_attempts(3).max_attempts, 3);
}

#[test]
fn rejected_candidates_are_released_once_each() {
    // the second body is rejected twice before a candidate far enough away comes
    let released = Cell::new(0usize);
    let map = Starmap2D::new(2)
        .build(
            |id: usize, attempt: u64| Planet::new(id, (id as i32) * (attempt as i32) * 60, 0),
            spaced,
            |_p: Planet| released.set(released.get() + 1),
        )
        .unwrap();
    assert_eq!(released.get(), 2);
    assert_eq!(map.get_planets()[1].x, 120);
}

#[test]
fn destroy_hands_back_each_body_once_then_refuses() {
    let mut map = Starmap2D::new(5).build(scatter, spaced, |_p: Planet| ()).unwrap();
    let before = map.get_planets().clone();
    let released = map.destroy().unwrap();
    assert_eq!(released, before);
    assert!(map.destroyed());
    assert_eq!(map.get_body(0).err(), Some(MapError::AlreadyDestroyed));
    assert_eq!(map.get_planet_properties(0).err(), Some(MapError::AlreadyDestroyed));
    assert_eq!(map.destroy().err(), Some(MapError::AlreadyDestroyed));
    assert_eq!(map.select_spread(1).err(), Some(MapError::AlreadyDestroyed));
}

#[test]
fn get_body_out_of_range_is_not_found() {
    let map = Starmap2D::from_planets(vec![Planet::new(0, 1, 2), Planet::new(1, 3, 4)]);
    assert_eq!(map.get_body(1).unwrap().x, 3);
    assert_eq!(map.get_body(2).err(), Some(MapError::NotFound));
    assert_eq!(map.get_planet_properties(0).unwrap(), Planet::new(0, 1, 2));
}

#[test]
fn set_planets_replaces_bodies() {
    let mut map = Starmap2D::empty();
    map.set_planets(vec![Planet::new(0, 5, 5)]);
    assert_eq!(map.len(), 1);
    assert_eq!(map.get_planets()[0].x, 5);
}

#[test]
fn distances() {
    let a = Planet::new(0, 0, 0);
    let b = Planet::new(1, 3, 4);
    let c = Planet::new(2, 1, 1);
    assert_eq!(Starmap2D::get_distance_between(&a, &b), 5);
    assert_eq!(distance_between(&a, &c), 1);
    assert_eq!(a.distance_squared_to(&b), 25);
    let far = Planet::new(3, i32::MIN, i32::MIN);
    let other = Planet::new(4, i32::MAX, i32::MAX);
    assert_eq!(far.distance_squared_to(&other), 2 * (u32::MAX as u128) * (u32::MAX as u128));
    assert_eq!(starmap::geometry::isqrt(99), 9);
    assert_eq!(starmap::geometry::isqrt(100), 10);
    assert_eq!(starmap::geometry::isqrt(u128::MAX), u64::MAX);
}

#[test]
fn spacing_bounds_are_strict() {
    let a = Planet::new(0, 0, 0);
    assert!(!a.is_spaced_within(&Planet::new(1, 100, 0), 100, 1000));
    assert!(a.is_spaced_within(&Planet::new(1, 101, 0), 100, 1000));
    assert!(!a.is_spaced_within(&Planet::new(1, 1000, 0), 100, 1000));
    assert!(a.is_spaced_within(&Planet::new(1, 999, 0), 100, 1000));
}

#[test]
fn one_body_map_needs_no_validator_call() {
    let map = Starmap2D::new(1)
        .build(
            scatter,
            |_a: &Planet, _b: &Planet| panic!("no earlier body to check against"),
            |_p: Planet| panic!("nothing is rejected"),
        )
        .unwrap();
    assert_eq!(map.len(), 1);
    assert_eq!(map.get_planets()[0].id, 0);
}

#[test]
fn zero_body_map_calls_nothing() {
    let map = Starmap2D::new(0)
        .build(
            |_id: usize, _a: u64| -> Planet { panic!("nothing to generate") },
            |_a: &Planet, _b: &Planet| false,
            |_p: Planet| panic!("nothing to release"),
        )
        .unwrap();
    assert_eq!(map.len(), 0);
}
