use serpent_arena::map::Effect;
use serpent_arena::math::{cycle_back, Direction, Point, Rng};

#[test]
fn point_equality_is_by_value() {
    assert_eq!(Point::new(3, 7), Point::new(3, 7));
    assert_ne!(Point::new(3, 7), Point::new(7, 3));
}

#[test]
fn quick_distance_is_manhattan() {
    assert_eq!(Point::new(2, 2).quick_distance(&Point::new(5, 6)), 7);
    assert_eq!(Point::new(5, 6).quick_distance(&Point::new(2, 2)), 7);
    assert_eq!(Point::new(4, 4).quick_distance(&Point::new(4, 4)), 0);
}

#[test]
fn distance_is_euclidean_rounded_down() {
    assert_eq!(Point::new(0, 0).distance(&Point::new(3, 4)), 5);
    assert_eq!(Point::new(0, 0).distance(&Point::new(1, 1)), 1);
    assert_eq!(Point::new(0, 0).distance(&Point::new(2, 3)), 3);
    assert_eq!(Point::new(10, 10).distance(&Point::new(10, 10)), 0);
    assert_eq!(Point::new(0, 0).distance(&Point::new(255, 255)), 360);
}

#[test]
fn offset_maps_logical_to_screen_cells() {
    // One column right of the border; two logical rows per physical row,
    // biased past the border row.
    assert_eq!(Point::new(3, 5).offset(&Point::new(2, 3)), Point::new(6, 6));
    assert_eq!(Point::new(0, 0).offset(&Point::new(2, 3)), Point::new(3, 4));
    assert_eq!(Point::new(0, 1).offset(&Point::new(2, 3)), Point::new(3, 4));
    assert_eq!(Point::new(0, 2).offset(&Point::new(2, 3)), Point::new(3, 5));
}

#[test]
fn step_wraps_every_edge_of_the_torus() {
    let size = Point::new(10, 5);
    // Low edges wrap to the opposite high edge minus one, and vice versa.
    assert_eq!(Point::new(0, 3).step(Direction::Left, &size), Point::new(9, 3));
    assert_eq!(Point::new(9, 3).step(Direction::Right, &size), Point::new(0, 3));
    assert_eq!(Point::new(4, 0).step(Direction::Up, &size), Point::new(4, 9));
    assert_eq!(Point::new(4, 9).step(Direction::Down, &size), Point::new(4, 0));
    // An interior step is plain.
    assert_eq!(Point::new(4, 4).step(Direction::Right, &size), Point::new(5, 4));
}

#[test]
fn step_stays_inside_for_every_direction_and_position() {
    let size = Point::new(10, 5);
    for x in 0..10u8 {
        for y in 0..10u8 {
            for d in [Direction::Up, Direction::Right, Direction::Down, Direction::Left] {
                let q = Point::new(x, y).step(d, &size);
                assert!(q.x < 10, "x out of range at ({x},{y})");
                assert!(q.y < 10, "y out of range at ({x},{y})");
            }
        }
    }
}

#[test]
fn direction_inverse_is_a_half_turn() {
    assert_eq!(Direction::Up.inverse(), Direction::Down);
    assert_eq!(Direction::Down.inverse(), Direction::Up);
    assert_eq!(Direction::Left.inverse(), Direction::Right);
    assert_eq!(Direction::Right.inverse(), Direction::Left);
}

#[test]
fn direction_coords_are_unit_vectors() {
    assert_eq!(Direction::Up.coords(), (0, -1));
    assert_eq!(Direction::Right.coords(), (1, 0));
    assert_eq!(Direction::Down.coords(), (0, 1));
    assert_eq!(Direction::Left.coords(), (-1, 0));
}

#[test]
fn rng_draws_below_the_bound() {
    let mut rng = Rng::new(12345);
    for _ in 0..100 {
        assert!(rng.generate(7) < 7);
    }
}

#[test]
fn rng_is_deterministic_per_seed() {
    let mut a = Rng::new(42);
    let mut b = Rng::new(42);
    for _ in 0..10 {
        assert_eq!(a.generate(1000), b.generate(1000));
    }
}

#[test]
fn randomize_lands_inside_the_doubled_rectangle() {
    let mut rng = Rng::new(7);
    let end = Point::new(10, 5);
    for _ in 0..50 {
        let p = Point::random(&mut rng, &end);
        assert!(p.x < 10);
        assert!(p.y < 10);
    }
}

#[test]
fn cycle_back_decrements_cyclically() {
    let v = [10u8, 20, 30];
    let mut i: usize = 2;
    assert_eq!(cycle_back(&v, &mut i), 2);
    assert_eq!(i, 1);
    assert_eq!(cycle_back(&v, &mut i), 1);
    assert_eq!(i, 0);
    assert_eq!(cycle_back(&v, &mut i), 0);
    assert_eq!(i, 2);
}

#[test]
fn nearest_directions_prefers_the_closing_axis() {
    // Target straight right, three columns away: horizontal first.
    let dirs = Point::new(5, 4).nearest_directions(&Point::new(8, 4), &Point::new(10, 5));
    assert_eq!(dirs[0], Direction::Right);
    // Target straight down: vertical first.
    let dirs = Point::new(5, 4).nearest_directions(&Point::new(5, 8), &Point::new(10, 5));
    assert_eq!(dirs[0], Direction::Down);
}

#[test]
fn nearest_directions_takes_the_wrap_shortcut() {
    // Target far right on a narrow arena: going left around the seam is
    // shorter than crossing more than half the width.
    let dirs = Point::new(0, 4).nearest_directions(&Point::new(9, 4), &Point::new(10, 5));
    assert_eq!(dirs[0], Direction::Left);
}

#[test]
fn effect_from_cycles_through_all_kinds() {
    assert!(matches!(Effect::from(0usize), Effect::Neutral));
    assert!(matches!(Effect::from(1usize), Effect::Speed));
    assert!(matches!(Effect::from(2usize), Effect::Nourish));
    assert!(matches!(Effect::from(3usize), Effect::Cannibal));
    assert!(matches!(Effect::from(6usize), Effect::Nourish));
}
