use starmap::planet::Planet;
use starmap::starmap::{MapError, Starmap2D};

fn map_of(points: &[(i32, i32)]) -> Starmap2D {
    Starmap2D::from_planets(
        points.iter().enumerate().map(|(i, &(x, y))| Planet::new(i, x, y)).collect(),
    )
}

fn min_gap(map: &Starmap2D, ids: &[usize]) -> u128 {
    let ps = map.get_planets();
    let mut best = u128::MAX;
    for i in 0..ids.len() {
        for j in (i + 1)..ids.len() {
            best = best.min(ps[ids[i]].distance_squared_to(&ps[ids[j]]));
        }
    }
    best
}

#[test]
fn spread_of_two_on_scalene_triangle_picks_farthest_pair() {
    let map = map_of(&[(0, 0), (3, 0), (0, 10)]);
    assert_eq!(map.select_spread(2).unwrap(), vec![1, 2]);
}

#[test]
fn spread_of_zero_and_one() {
    let map = map_of(&[(5, 5), (0, 0), (9, 9)]);
    assert_eq!(map.select_spread(0).unwrap(), Vec::<usize>::new());
    assert_eq!(map.select_spread(1).unwrap(), vec![0]);
}

#[test]
fn spread_larger_than_map_is_not_found() {
    let map = map_of(&[(0, 0), (1, 1)]);
    assert_eq!(map.select_spread(3).err(), Some(MapError::NotFound));
    assert_eq!(map.select_spread(2).unwrap(), vec![0, 1]);
}

#[test]
fn spread_skips_the_crowded_centre() {
    let map = map_of(&[(0, 0), (10, 0), (0, 10), (5, 5)]);
    assert_eq!(map.select_spread(3).unwrap(), vec![0, 1, 2]);
}

#[test]
fn spread_prefers_lower_ids_on_ties() {
    let map = map_of(&[(0, 0), (10, 0), (20, 0), (30, 0)]);
    assert_eq!(map.select_spread(2).unwrap(), vec![0, 3]);
    let square = map_of(&[(0, 0), (10, 0), (10, 10), (0, 10)]);
    assert_eq!(square.select_spread(2).unwrap(), vec![0, 2]);
}

#[test]
fn spread_beats_every_other_subset() {
    let pts = [(3, 7), (40, 2), (11, 90), (64, 64), (90, 10), (25, 30), (70, 95)];
    let map = map_of(&pts);
    let k = 3;
    let got = map.select_spread(k).unwrap();
    let score = min_gap(&map, &got);
    for a in 0..pts.len() {
        for b in (a + 1)..pts.len() {
            for c in (b + 1)..pts.len() {
                assert!(min_gap(&map, &[a, b, c]) <= score);
            }
        }
    }
    for w in got.windows(2) {
        assert!(w[0] < w[1]);
    }
}
