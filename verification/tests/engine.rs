use serpent_arena::map::{locate_food, Arena, Effect, Food, Strategy};
use serpent_arena::math::{Direction, Point, Rng};
use serpent_arena::snake::Snake;

fn snake_at(cells: &[(u8, u8)], dir: Direction) -> Snake {
    Snake {
        name: "T",
        color: 10,
        body: cells.iter().map(|&(x, y)| Point::new(x, y)).collect(),
        cannibal_until: 0,
        head: 0,
        dir,
        speed: 55,
        delta: 0,
        alive: true,
        strat: Strategy::Eat,
    }
}

fn arena_10_by_5() -> Arena {
    Arena::new(2, 3, 10, 5)
}

#[test]
fn serpentine_moves_one_cell_on_the_open_plane() {
    // Arena 10 x 5 (logical rows 0..10), one agent of length 3 at (5,4)
    // heading right: one movement tick lands the head on (6,4), the length
    // stays 3 and the agent stays alive.
    let arena = arena_10_by_5();
    let mut rng = Rng::new(1);
    let mut snakes = vec![snake_at(&[(5, 4), (5, 4), (5, 4)], Direction::Right)];
    Snake::serpentine(&mut snakes, 0, &mut rng, &arena, 0);
    assert_eq!(*snakes[0].head(), Point::new(6, 4));
    assert_eq!(snakes[0].len(), 3);
    assert!(snakes[0].alive);
}

#[test]
fn serpentine_carries_the_body_forward() {
    let arena = arena_10_by_5();
    let mut rng = Rng::new(1);
    let mut snakes = vec![snake_at(&[(5, 4), (4, 4), (3, 4)], Direction::Right)];
    Snake::serpentine(&mut snakes, 0, &mut rng, &arena, 0);
    assert_eq!(*snakes[0].head(), Point::new(6, 4));
    // The old tail cell (3,4) was vacated; the old head is now the neck.
    assert_eq!(*snakes[0].tail(), Point::new(4, 4));
    assert_eq!(snakes[0].len(), 3);
}

#[test]
fn serpentine_wraps_around_the_torus() {
    let arena = arena_10_by_5();
    let mut rng = Rng::new(1);
    let mut snakes = vec![snake_at(&[(9, 4), (9, 4), (9, 4)], Direction::Right)];
    Snake::serpentine(&mut snakes, 0, &mut rng, &arena, 0);
    assert_eq!(*snakes[0].head(), Point::new(0, 4));
    let mut snakes = vec![snake_at(&[(4, 0), (4, 0), (4, 0)], Direction::Up)];
    Snake::serpentine(&mut snakes, 0, &mut rng, &arena, 0);
    assert_eq!(*snakes[0].head(), Point::new(4, 9));
}

#[test]
fn steer_refuses_an_immediate_reversal() {
    let mut s = snake_at(&[(5, 4), (5, 4), (5, 4)], Direction::Up);
    s.steer(Direction::Down);
    assert_eq!(s.dir, Direction::Up);
    s.steer(Direction::Left);
    assert_eq!(s.dir, Direction::Left);
    s.steer(Direction::Right);
    assert_eq!(s.dir, Direction::Left);
    s.steer(Direction::Up);
    assert_eq!(s.dir, Direction::Up);
}

#[test]
fn cannibal_mode_exempts_another_tail_from_crashing() {
    // The target cell (5,5) is only the second agent's tail.
    let mover = snake_at(&[(1, 1), (1, 1), (1, 1)], Direction::Right);
    let other = snake_at(&[(5, 3), (5, 4), (5, 5)], Direction::Down);
    let mut snakes = vec![mover, other];
    let target = Point::new(5, 5);

    // Not in cannibal mode: the tail cell is a fatal crash.
    let mut killer = None;
    assert!(Snake::is_crash(&snakes, 0, &target, &mut killer, 0));
    assert_eq!(killer, Some(1));

    // In cannibal mode the same configuration is no crash.
    snakes[0].cannibal_until = u64::MAX;
    let mut killer = None;
    assert!(!Snake::is_crash(&snakes, 0, &target, &mut killer, 0));
    assert_eq!(killer, None);
}

#[test]
fn cannibal_mode_does_not_exempt_body_cells() {
    let mover = snake_at(&[(1, 1), (1, 1), (1, 1)], Direction::Right);
    let other = snake_at(&[(5, 3), (5, 4), (5, 5)], Direction::Down);
    let mut snakes = vec![mover, other];
    snakes[0].cannibal_until = u64::MAX;
    // (5,4) is a mid-body cell of the other agent, not its tail.
    let mut killer = None;
    assert!(Snake::is_crash(&snakes, 0, &Point::new(5, 4), &mut killer, 0));
    assert_eq!(killer, Some(1));
}

#[test]
fn crashing_transfers_the_length_to_the_killer() {
    // Agent 0 (length 4) runs into agent 1's body; agent 1 gains 4 segments
    // and agent 0 dies (shedding one segment on the same tick).
    let arena = arena_10_by_5();
    let mut rng = Rng::new(1);
    let a = snake_at(&[(4, 4), (3, 4), (2, 4), (1, 4)], Direction::Right);
    let b = snake_at(&[(5, 3), (5, 4), (5, 5)], Direction::Down);
    let mut snakes = vec![a, b];
    Snake::serpentine(&mut snakes, 0, &mut rng, &arena, 0);
    assert_eq!(snakes[1].len(), 3 + 4);
    assert!(!snakes[0].alive);
    assert_eq!(snakes[0].len(), 3);
    assert_eq!(snakes[0].speed, 80);
}

#[test]
fn self_crash_attributes_no_killer() {
    let arena = arena_10_by_5();
    let mut rng = Rng::new(1);
    // Heading right into its own neck cell.
    let a = snake_at(&[(4, 4), (5, 4), (5, 5), (4, 5), (3, 5)], Direction::Right);
    let b = snake_at(&[(9, 9), (9, 9), (9, 9)], Direction::Down);
    let mut snakes = vec![a, b];
    Snake::serpentine(&mut snakes, 0, &mut rng, &arena, 0);
    assert!(!snakes[0].alive);
    // The bystander gained nothing.
    assert_eq!(snakes[1].len(), 3);
}

#[test]
fn a_dead_agent_sheds_then_respawns_alive() {
    let arena = arena_10_by_5();
    let mut rng = Rng::new(99);
    let mut s = snake_at(&[(5, 4), (4, 4), (3, 4), (2, 4), (1, 4)], Direction::Right);
    s.alive = false;
    let mut snakes = vec![s];
    // Length 5 -> shed -> 4 -> shed -> 3; both ticks stay dead.
    Snake::serpentine(&mut snakes, 0, &mut rng, &arena, 0);
    assert_eq!(snakes[0].len(), 4);
    assert!(!snakes[0].alive);
    Snake::serpentine(&mut snakes, 0, &mut rng, &arena, 0);
    assert_eq!(snakes[0].len(), 3);
    assert!(!snakes[0].alive);
    // At the minimum length the next tick respawns it in place: alive, the
    // length kept, the head at a fresh legal cell.
    Snake::serpentine(&mut snakes, 0, &mut rng, &arena, 0);
    assert!(snakes[0].alive);
    assert_eq!(snakes[0].len(), 3);
    assert!(snakes[0].head().x < 10);
    assert!(snakes[0].head().y < 10);
}

#[test]
fn remove_tail_stops_at_the_minimum_length() {
    let mut s = snake_at(&[(5, 4), (4, 4), (3, 4), (2, 4)], Direction::Right);
    assert!(s.remove_tail());
    assert_eq!(s.len(), 3);
    assert!(!s.remove_tail());
    assert_eq!(s.len(), 3);
}

#[test]
fn eating_food_grows_by_one_and_relocates_it() {
    let arena = arena_10_by_5();
    let mut rng = Rng::new(5);
    let mut snakes = vec![snake_at(&[(5, 4), (4, 4), (3, 4)], Direction::Right)];
    let mut food = vec![Food::new(Effect::Neutral, Point::new(5, 4))];
    Snake::eat(&mut snakes, 0, &mut rng, &mut food, &arena, 0);
    assert_eq!(snakes[0].len(), 4);
    // The consumed item moved to a fresh legal cell.
    assert_ne!(food[0].position, Point::new(5, 4));
    assert!(food[0].position.x < 10);
    assert!(food[0].position.y < 10);
}

#[test]
fn nourish_grows_by_two() {
    let arena = arena_10_by_5();
    let mut rng = Rng::new(5);
    let mut snakes = vec![snake_at(&[(5, 4), (4, 4), (3, 4)], Direction::Right)];
    let mut food = vec![Food::new(Effect::Nourish, Point::new(5, 4))];
    Snake::eat(&mut snakes, 0, &mut rng, &mut food, &arena, 0);
    assert_eq!(snakes[0].len(), 5);
}

#[test]
fn speed_food_lowers_the_delay_saturating() {
    let arena = arena_10_by_5();
    let mut rng = Rng::new(5);
    let mut snakes = vec![snake_at(&[(5, 4), (4, 4), (3, 4)], Direction::Right)];
    let mut food = vec![Food::new(Effect::Speed, Point::new(5, 4))];
    Snake::eat(&mut snakes, 0, &mut rng, &mut food, &arena, 0);
    assert_eq!(snakes[0].speed, 52);
    assert_eq!(snakes[0].len(), 4);

    // Near zero the subtraction saturates instead of wrapping.
    let mut snakes = vec![snake_at(&[(5, 4), (4, 4), (3, 4)], Direction::Right)];
    snakes[0].speed = 2;
    let mut rng = Rng::new(5);
    let mut food = vec![Food::new(Effect::Speed, Point::new(5, 4))];
    Snake::eat(&mut snakes, 0, &mut rng, &mut food, &arena, 0);
    assert_eq!(snakes[0].speed, 0);
}

#[test]
fn cannibal_food_opens_the_window() {
    let arena = arena_10_by_5();
    let mut rng = Rng::new(5);
    let mut snakes = vec![snake_at(&[(5, 4), (4, 4), (3, 4)], Direction::Right)];
    let mut food = vec![Food::new(Effect::Cannibal, Point::new(5, 4))];
    let now = 100_000;
    assert!(!snakes[0].is_cannibal(now));
    Snake::eat(&mut snakes, 0, &mut rng, &mut food, &arena, now);
    assert_eq!(snakes[0].cannibal_until, now + 10_000);
    assert!(snakes[0].is_cannibal(now));
    assert!(!snakes[0].is_cannibal(now + 10_000));
}

#[test]
fn a_cannibal_eats_a_tail_and_refreshes_its_window() {
    let arena = arena_10_by_5();
    let mut rng = Rng::new(5);
    let mut me = snake_at(&[(5, 5), (4, 5), (3, 5)], Direction::Right);
    me.cannibal_until = 50_000;
    let other = snake_at(&[(5, 2), (5, 3), (5, 4), (5, 5)], Direction::Up);
    // My head sits on the other agent's tail cell (5,5).
    let mut snakes = vec![me, other];
    let mut food = vec![Food::new(Effect::Neutral, Point::new(9, 9))];
    let now = 1_000;
    Snake::eat(&mut snakes, 0, &mut rng, &mut food, &arena, now);
    assert_eq!(snakes[0].len(), 4);
    assert_eq!(snakes[1].len(), 3);
    assert_eq!(snakes[0].cannibal_until, now + 10_000);
}

#[test]
fn a_tail_at_minimum_length_is_not_eaten() {
    let arena = arena_10_by_5();
    let mut rng = Rng::new(5);
    let mut me = snake_at(&[(5, 5), (4, 5), (3, 5)], Direction::Right);
    me.cannibal_until = 50_000;
    let other = snake_at(&[(5, 3), (5, 4), (5, 5)], Direction::Up);
    let mut snakes = vec![me, other];
    let mut food = vec![Food::new(Effect::Neutral, Point::new(9, 9))];
    Snake::eat(&mut snakes, 0, &mut rng, &mut food, &arena, 1_000);
    assert_eq!(snakes[0].len(), 3);
    assert_eq!(snakes[1].len(), 3);
}

#[test]
fn can_move_follows_the_personal_timer() {
    let mut s = snake_at(&[(5, 4), (5, 4), (5, 4)], Direction::Right);
    assert!(!s.can_move(10));
    assert!(s.can_move(55));
    assert_eq!(s.delta, 55);
    assert!(!s.can_move(56));
    assert!(s.can_move(110));
}

#[test]
fn displayed_speed_inverts_the_delay() {
    let mut s = snake_at(&[(5, 4), (5, 4), (5, 4)], Direction::Right);
    assert_eq!(s.speed(), 200);
    s.add_speed(3);
    assert_eq!(s.speed, 52);
    assert_eq!(s.speed(), 203);
}

#[test]
fn locate_food_picks_the_nearest_of_its_kind() {
    let food = vec![
        Food::new(Effect::Speed, Point::new(0, 0)),
        Food::new(Effect::Nourish, Point::new(2, 2)),
        Food::new(Effect::Speed, Point::new(3, 3)),
    ];
    let head = Point::new(2, 2);
    assert_eq!(locate_food(&food, &head, Effect::Speed), Point::new(3, 3));
    assert_eq!(locate_food(&food, &head, Effect::Nourish), Point::new(2, 2));
}

#[test]
fn locate_food_keeps_the_earliest_on_ties() {
    let food = vec![
        Food::new(Effect::Speed, Point::new(1, 2)),
        Food::new(Effect::Speed, Point::new(3, 2)),
    ];
    // Both are one cell away from (2,2).
    assert_eq!(locate_food(&food, &Point::new(2, 2), Effect::Speed), Point::new(1, 2));
}

#[test]
fn snake_random_starts_coincident_and_legal() {
    let mut rng = Rng::new(77);
    let s = Snake::random(8, Strategy::Kill, &mut rng, &Point::new(10, 5));
    assert_eq!(s.len(), 8);
    assert!(s.alive);
    assert_eq!(s.speed, 55);
    assert!(s.head().x < 10);
    assert!(s.head().y < 10);
    assert_eq!(*s.head(), *s.tail());
    assert!(!s.is_cannibal(0));
    assert!(!s.name.is_empty());
}
