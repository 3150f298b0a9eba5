use serpent_arena::map::{Effect, Food, Strategy};
use serpent_arena::math::{Direction, Point};
use serpent_arena::snake::Snake;

fn snake_with(cells: &[(u8, u8)], strat: Strategy, speed: u8) -> Snake {
    Snake {
        name: "T",
        color: 10,
        body: cells.iter().map(|&(x, y)| Point::new(x, y)).collect(),
        cannibal_until: 0,
        head: 0,
        dir: Direction::Right,
        speed,
        delta: 0,
        alive: true,
        strat,
    }
}

fn all_food() -> Vec<Food> {
    vec![
        Food::new(Effect::Neutral, Point::new(1, 1)),
        Food::new(Effect::Speed, Point::new(8, 8)),
        Food::new(Effect::Nourish, Point::new(2, 7)),
        Food::new(Effect::Cannibal, Point::new(7, 2)),
    ]
}

#[test]
fn speed_seeker_targets_the_speed_food() {
    let snakes = vec![snake_with(&[(5, 4)], Strategy::Speed, 55)];
    let t = Snake::find_target(&snakes, 0, &all_food(), 0);
    assert_eq!(t, Point::new(8, 8));
}

#[test]
fn score_seeker_targets_the_nourish_food() {
    let snakes = vec![snake_with(&[(5, 4)], Strategy::Score, 55)];
    let t = Snake::find_target(&snakes, 0, &all_food(), 0);
    assert_eq!(t, Point::new(2, 7));
}

#[test]
fn eat_seeker_targets_whatever_is_nearest() {
    // From (2,2) the Neutral item at (1,1) is nearest of all four.
    let snakes = vec![snake_with(&[(2, 2)], Strategy::Eat, 55)];
    let t = Snake::find_target(&snakes, 0, &all_food(), 0);
    assert_eq!(t, Point::new(1, 1));
}

#[test]
fn kill_seeker_targets_the_longest_slow_rival() {
    // Two rivals are slow enough (delay larger by more than 10); the longer
    // one's head is the target.
    let me = snake_with(&[(5, 4)], Strategy::Kill, 55);
    let short = snake_with(&[(1, 1), (1, 2), (1, 3)], Strategy::Eat, 70);
    let long = snake_with(&[(9, 9), (9, 8), (9, 7), (9, 6)], Strategy::Eat, 70);
    let fast = snake_with(&[(3, 3); 9], Strategy::Eat, 60);
    let snakes = vec![me, short, long, fast];
    let t = Snake::find_target(&snakes, 0, &all_food(), 0);
    assert_eq!(t, Point::new(9, 9));
}

#[test]
fn kill_seeker_falls_back_to_speed_food() {
    // No rival is slow enough: the speed food is the fallback.
    let me = snake_with(&[(5, 4)], Strategy::Kill, 55);
    let rival = snake_with(&[(1, 1), (1, 2), (1, 3)], Strategy::Eat, 60);
    let snakes = vec![me, rival];
    let t = Snake::find_target(&snakes, 0, &all_food(), 0);
    assert_eq!(t, Point::new(8, 8));
}

#[test]
fn cannibal_seeker_wants_the_cannibal_food_first() {
    let snakes = vec![snake_with(&[(5, 4)], Strategy::Cannibal, 55)];
    let t = Snake::find_target(&snakes, 0, &all_food(), 0);
    assert_eq!(t, Point::new(7, 2));
}

#[test]
fn an_active_cannibal_seeker_wants_speed_food_instead() {
    let mut me = snake_with(&[(5, 4)], Strategy::Cannibal, 55);
    me.cannibal_until = u64::MAX;
    let snakes = vec![me];
    let t = Snake::find_target(&snakes, 0, &all_food(), 0);
    assert_eq!(t, Point::new(8, 8));
}

#[test]
fn cannibal_mode_hunts_a_slow_long_rival_tail() {
    // In cannibal mode, a rival with a delay larger by more than 4 and a
    // body above the minimum length overrides the strategy target: its
    // tail is hunted.
    let mut me = snake_with(&[(5, 4), (4, 4), (3, 4)], Strategy::Speed, 55);
    me.cannibal_until = u64::MAX;
    let rival = snake_with(&[(9, 9), (9, 8), (9, 7), (9, 6)], Strategy::Eat, 60);
    let snakes = vec![me, rival];
    let t = Snake::find_target(&snakes, 0, &all_food(), 0);
    assert_eq!(t, Point::new(9, 6));
}

#[test]
fn the_hunt_ignores_rivals_at_minimum_length() {
    let mut me = snake_with(&[(5, 4), (4, 4), (3, 4)], Strategy::Speed, 55);
    me.cannibal_until = u64::MAX;
    // Slow enough but only three segments: not huntable, so the strategy
    // target stands.
    let rival = snake_with(&[(9, 9), (9, 8), (9, 7)], Strategy::Eat, 60);
    let snakes = vec![me, rival];
    let t = Snake::find_target(&snakes, 0, &all_food(), 0);
    assert_eq!(t, Point::new(8, 8));
}

#[test]
fn seek_turns_toward_the_target() {
    let mut snakes = vec![snake_with(&[(5, 4), (4, 4), (3, 4)], Strategy::Eat, 55)];
    snakes[0].dir = Direction::Up;
    let bounds = Point::new(10, 5);
    Snake::seek(&mut snakes, 0, &Point::new(8, 4), &bounds, 0);
    assert_eq!(snakes[0].dir, Direction::Right);
}

#[test]
fn seek_never_reverses() {
    // The target lies straight behind; the reverse direction is skipped and
    // a flanking direction is taken instead.
    let mut snakes = vec![snake_with(&[(5, 4), (4, 4), (3, 4)], Strategy::Eat, 55)];
    snakes[0].dir = Direction::Right;
    let bounds = Point::new(20, 10);
    Snake::seek(&mut snakes, 0, &Point::new(1, 4), &bounds, 0);
    assert_ne!(snakes[0].dir, Direction::Left);
}

#[test]
fn seek_avoids_a_crashing_step() {
    // Straight right is blocked by a rival's body; some safe direction is
    // taken and the agent would not crash on its next step.
    let me = snake_with(&[(5, 4), (4, 4), (3, 4)], Strategy::Eat, 55);
    let wall = snake_with(&[(6, 3), (6, 4), (6, 5)], Strategy::Eat, 55);
    let mut snakes = vec![me, wall];
    let bounds = Point::new(10, 5);
    Snake::seek(&mut snakes, 0, &Point::new(8, 4), &bounds, 0);
    let d = snakes[0].dir;
    assert_ne!(d, Direction::Right);
    let next = snakes[0].head().step(d, &bounds);
    let mut killer = None;
    assert!(!Snake::is_crash(&snakes, 0, &next, &mut killer, 0));
}

#[test]
fn seek_keeps_its_heading_when_boxed_in() {
    // Every neighbouring cell is occupied: the agent keeps driving ahead.
    let me = snake_with(&[(5, 4), (5, 4), (5, 4)], Strategy::Eat, 55);
    let box_walls = snake_with(&[(4, 4), (6, 4), (5, 3), (5, 5)], Strategy::Eat, 55);
    let mut snakes = vec![me, box_walls];
    snakes[0].dir = Direction::Right;
    let bounds = Point::new(10, 5);
    Snake::seek(&mut snakes, 0, &Point::new(8, 4), &bounds, 0);
    assert_eq!(snakes[0].dir, Direction::Right);
}
