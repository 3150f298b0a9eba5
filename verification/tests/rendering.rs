use serpent_arena::esc::{bg, fg, mv, push_dec, push_dec3, reset};
use serpent_arena::game::Game;
use serpent_arena::map::{Arena, Effect, Food, Strategy};
use serpent_arena::math::{Direction, Point};
use serpent_arena::snake::Snake;

fn snake_at(cells: &[(u8, u8)], color: u8) -> Snake {
    Snake {
        name: "T",
        color,
        body: cells.iter().map(|&(x, y)| Point::new(x, y)).collect(),
        cannibal_until: 0,
        head: 0,
        dir: Direction::Right,
        speed: 55,
        delta: 0,
        alive: true,
        strat: Strategy::Eat,
    }
}

#[test]
fn escape_sequences_are_exact() {
    let mut s = String::new();
    fg(&mut s, 196);
    assert_eq!(s, "\x1b[38;5;196m");
    let mut s = String::new();
    bg(&mut s, 8);
    assert_eq!(s, "\x1b[48;5;8m");
    let mut s = String::new();
    reset(&mut s);
    assert_eq!(s, "\x1b[0m");
    let mut s = String::new();
    mv(&mut s, &Point::new(3, 7));
    assert_eq!(s, "\x1b[7;3H");
}

#[test]
fn decimals_render_with_and_without_padding() {
    let mut s = String::new();
    push_dec(&mut s, 0);
    push_dec(&mut s, 42);
    push_dec(&mut s, 1234567);
    assert_eq!(s, "0421234567");
    let mut s = String::new();
    push_dec3(&mut s, 7);
    push_dec3(&mut s, 42);
    push_dec3(&mut s, 255);
    assert_eq!(s, "007042255");
}

#[test]
fn point_render_moves_then_draws() {
    let mut s = String::new();
    Point::new(4, 9).render("X", &mut s);
    assert_eq!(s, "\x1b[9;4HX");
}

#[test]
fn food_render_colors_its_glyph() {
    let mut s = String::new();
    let fd = Food::new(Effect::Speed, Point::new(3, 5));
    fd.render(&mut s, &Point::new(2, 3));
    // Foreground 226, cursor to the screen cell of (3,5) with offset (2,3),
    // the glyph, then a reset.
    assert_eq!(s, format!("\x1b[38;5;226m\x1b[6;6H{}\x1b[0m", '\u{f0e7}'));
}

#[test]
fn arena_render_draws_the_border() {
    let mut arena = Arena::new(2, 3, 4, 2);
    let mut food: Vec<Food> = Vec::new();
    let mut f = String::new();
    arena.render(&mut f, &Point::new(100, 100), &mut food);
    assert_eq!(
        f,
        "\x1b[3;2H╔════╗\n\x1b[1C║\x1b[4C║\n\x1b[1C║\x1b[4C║\n\x1b[1C╚════╝\n"
    );
    assert_eq!(arena.position, Point::new(2, 3));
    assert_eq!(arena.size, Point::new(4, 2));
}

#[test]
fn arena_render_slides_then_shrinks_against_the_viewport() {
    // position 10 + width 32 + padding 16 = 58 overflows a 40-column
    // viewport by 18; sliding absorbs 8 (to the margin at column 2), the
    // remaining 10 shrink the width.
    let mut arena = Arena::new(10, 5, 32, 15);
    let mut food = vec![Food::new(Effect::Speed, Point::new(30, 4))];
    let mut f = String::new();
    arena.render(&mut f, &Point::new(40, 30), &mut food);
    assert_eq!(arena.position.x, 2);
    assert_eq!(arena.size.x, 22);
    assert_eq!(arena.position.y, 5);
    assert_eq!(arena.size.y, 15);
    // The food that fell outside was pulled back to the last interior
    // column, width - 2.
    assert_eq!(food[0].position.x, 20);
    assert_eq!(food[0].position.y, 4);
}

#[test]
fn arena_width_shrinks_no_lower_than_eight() {
    let mut arena = Arena::new(2, 3, 20, 10);
    let mut food: Vec<Food> = Vec::new();
    arena.shrink_width(200, &mut food);
    assert_eq!(arena.size.x, 8);
    let mut arena = Arena::new(2, 3, 20, 10);
    arena.shrink_height(200, &mut food);
    assert_eq!(arena.size.y, 8);
}

#[test]
fn compositor_merges_shared_cells_in_either_order() {
    // Agent A occupies the upper half of a physical cell, agent B the
    // lower half. Rendering in either order produces the same unordered
    // pair of colors for that cell; only which one is the glyph foreground
    // differs.
    let arena = Arena::new(2, 3, 10, 5);
    let a = snake_at(&[(3, 4)], 11);
    let b = snake_at(&[(3, 5)], 22);

    let mut top = Vec::new();
    let mut bottom = Vec::new();
    let mut f1 = String::new();
    a.render(&mut f1, &arena, &mut top, &mut bottom, 0);
    b.render(&mut f1, &arena, &mut top, &mut bottom, 0);
    assert!(top.is_empty());
    assert!(bottom.is_empty());
    // A drew its upper half plain; B found it pending and drew the lower
    // half over A's color as background.
    assert_eq!(
        f1,
        "\x1b[38;5;11m\x1b[6;6H▀\x1b[0m\x1b[0m\x1b[48;5;11m\x1b[38;5;22m\x1b[6;6H▄\x1b[0m\x1b[0m"
    );

    let mut top = Vec::new();
    let mut bottom = Vec::new();
    let mut f2 = String::new();
    b.render(&mut f2, &arena, &mut top, &mut bottom, 0);
    a.render(&mut f2, &arena, &mut top, &mut bottom, 0);
    assert!(top.is_empty());
    assert!(bottom.is_empty());
    assert_eq!(
        f2,
        "\x1b[38;5;22m\x1b[6;6H▄\x1b[0m\x1b[0m\x1b[48;5;22m\x1b[38;5;11m\x1b[6;6H▀\x1b[0m\x1b[0m"
    );
}

#[test]
fn compositor_records_pending_halves_per_frame() {
    let arena = Arena::new(2, 3, 10, 5);
    let a = snake_at(&[(3, 4)], 11);
    let mut top = Vec::new();
    let mut bottom = Vec::new();
    let mut f = String::new();
    a.render(&mut f, &arena, &mut top, &mut bottom, 0);
    // The upper half waits for a lower half at the partner coordinate.
    assert!(top.is_empty());
    assert_eq!(bottom.len(), 1);
    assert_eq!(bottom[0].point, Point::new(3, 5));
    assert_eq!(bottom[0].color, 11);
}

#[test]
fn cannibal_head_draws_in_the_warning_color() {
    let arena = Arena::new(2, 3, 10, 5);
    let mut a = snake_at(&[(3, 4)], 11);
    a.cannibal_until = u64::MAX;
    let mut top = Vec::new();
    let mut bottom = Vec::new();
    let mut f = String::new();
    a.render(&mut f, &arena, &mut top, &mut bottom, 0);
    assert!(f.contains("\x1b[38;5;196m"));
}

#[test]
fn game_new_primes_the_frame_buffer() {
    let g = Game::new(1);
    assert_eq!(g.frame, "\x1b[?25l\x1b[2J");
    assert!(g.paused);
    assert!(!g.running);
    assert!(!g.debug);
    assert_eq!(g.arena.position, Point::new(2, 2));
    assert_eq!(g.arena.size, Point::new(32, 15));
    assert_eq!(g.frame_duration_us, 1_000_000 / 30);
}

#[test]
fn fps_sets_the_frame_interval() {
    let mut g = Game::new(1);
    g.fps(60);
    assert_eq!(g.frame_duration_us, 16_666);
    g.resize_arena(20, 10).move_arena(4, 5);
    assert_eq!(g.arena.size, Point::new(20, 10));
    assert_eq!(g.arena.position, Point::new(4, 5));
}

#[test]
fn handle_input_steers_and_reshapes() {
    let mut g = Game::new(1);
    let mut player = snake_at(&[(5, 4)], 84);
    player.dir = Direction::Up;
    g.handle_input(b'a', &mut player);
    assert_eq!(player.dir, Direction::Left);
    g.handle_input(b's', &mut player);
    assert_eq!(player.dir, Direction::Down);
    // Reversal ignored.
    g.handle_input(b'w', &mut player);
    assert_eq!(player.dir, Direction::Down);

    g.handle_input(b'k', &mut player);
    assert_eq!(g.arena.size.y, 16);
    g.handle_input(b'h', &mut player);
    assert_eq!(g.arena.size.x, 31);
    g.handle_input(66, &mut player);
    assert_eq!(g.arena.position.y, 3);
    g.handle_input(68, &mut player);
    assert_eq!(g.arena.position.x, 1);
    g.handle_input(b'p', &mut player);
    assert!(!g.paused);
    g.handle_input(b'f', &mut player);
    assert!(g.debug);
    g.handle_input(b'q', &mut player);
    assert!(!g.running);
    // Unknown keys change nothing.
    let size = g.arena.size;
    g.handle_input(b'z', &mut player);
    assert_eq!(g.arena.size, size);
}

#[test]
fn scoreboard_lists_longest_first() {
    let mut g = Game::new(1);
    g.frame.clear();
    let mut a = snake_at(&[(1, 1), (1, 2), (1, 3)], 5);
    a.name = "Shorty";
    let mut b = snake_at(&[(2, 1), (2, 2), (2, 3), (2, 4), (2, 5)], 6);
    b.name = "Longy";
    let snakes = vec![a, b];
    g.render_scoreboard(&snakes);
    // Arena at (2,2) size (32,15): the table starts at column 36, row 3.
    assert_eq!(
        g.frame,
        "\x1b[3;36H\x1b[38;5;6mLongy: 5\n\x1b[4;36H\x1b[38;5;5mShorty: 3\n\x1b[0m"
    );
}

#[test]
fn scoreboard_keeps_the_earlier_agent_on_ties() {
    let mut g = Game::new(1);
    g.frame.clear();
    let mut a = snake_at(&[(1, 1), (1, 2), (1, 3)], 5);
    a.name = "First";
    let mut b = snake_at(&[(2, 1), (2, 2), (2, 3)], 6);
    b.name = "Second";
    g.render_scoreboard(&vec![a, b]);
    let first = g.frame.find("First").unwrap();
    let second = g.frame.find("Second").unwrap();
    assert!(first < second);
}

#[test]
fn status_line_shows_speed_score_and_coordinates() {
    let mut g = Game::new(1);
    g.frame.clear();
    let player = snake_at(&[(5, 4), (4, 4), (3, 4)], 84);
    g.render_ui(&player, 0);
    assert_eq!(
        g.frame,
        "\x1b[0;2HPress F for Debug information\x1b[1;2HSPEED: 200/255 | SCORE: 3 | COORDS: 005:004 | ARENA SIZE: 032:015 0"
    );
}

#[test]
fn debug_line_shows_frame_rate_and_scratch_sizes() {
    let mut g = Game::new(1);
    g.frame.clear();
    g.debug = true;
    g.delta = 0;
    let player = snake_at(&[(5, 4), (4, 4), (3, 4)], 84);
    // 1_000_000 us / 50_000 us elapsed = 20 frames per second.
    g.render_ui(&player, 50_000);
    assert!(g.frame.contains("20 FPS | T: 000 | B: 000"));
}
