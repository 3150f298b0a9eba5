//! The engine state around one run: the frame buffer, the per-frame
//! compositor scratch sets, the arena, the pacing knobs, and the keyboard
//! dispatch that steers the player and reshapes the arena.

use vstd::prelude::*;
use crate::esc::{dec3_seq, dec_seq, fg, fg_seq, mv, mv_seq, push_dec, push_dec3, reset,
    reset_seq};
use crate::map::{sat_sub, Arena};
use crate::math::{ColoredPoint, Direction, Point, Rng};
use crate::snake::Snake;

verus! {

/// Microseconds per second, the base of the frame pacing arithmetic.
pub const TIME_US: u64 = 1_000_000;

/// The engine state of one run. Time is an explicit clock reading handed in
/// by the caller: `delta` remembers when the last frame was rendered, in
/// the same microsecond units as `frame_duration_us`.
pub struct Game {
    pub rng: Rng,
    pub top_halves: Vec<ColoredPoint>,
    pub bottom_halves: Vec<ColoredPoint>,
    pub arena: Arena,
    pub delta: u64,
    pub running: bool,
    pub paused: bool,
    pub frame_duration_us: u64,
    pub debug: bool,
    pub frame: String,
}

/// What the player agent becomes under one key press: the four steering
/// keys turn it (reversals ignored), everything else leaves it alone.
pub open spec fn player_after_key(p: Snake, key: u8) -> Snake {
    let d: Option<Direction> = if key == 119 {
        Some(Direction::Up)
    } else if key == 100 {
        Some(Direction::Right)
    } else if key == 115 {
        Some(Direction::Down)
    } else if key == 97 {
        Some(Direction::Left)
    } else {
        None
    };
    if d is Some {
        Snake {
            dir: if p.dir.inverse_spec() == d->Some_0 {
                p.dir
            } else {
                d->Some_0
            },
            ..p
        }
    } else {
        p
    }
}

/// What the engine state becomes under one key press: the arrow-key bytes
/// move the arena, four letter keys resize it, and single keys toggle the
/// debug overlay, pause, and the running flag.
pub open spec fn game_after_key(g: Game, key: u8) -> Game {
    if key == 66 {
        Game {
            arena: Arena {
                position: Point {
                    y: g.arena.position.y.saturating_add(1),
                    ..g.arena.position
                },
                ..g.arena
            },
            ..g
        }
    } else if key == 65 {
        Game {
            arena: Arena {
                position: Point {
                    y: g.arena.position.y.saturating_sub(1),
                    ..g.arena.position
                },
                ..g.arena
            },
            ..g
        }
    } else if key == 67 {
        Game {
            arena: Arena {
                position: Point {
                    x: g.arena.position.x.saturating_add(1),
                    ..g.arena.position
                },
                ..g.arena
            },
            ..g
        }
    } else if key == 68 {
        Game {
            arena: Arena {
                position: Point {
                    x: g.arena.position.x.saturating_sub(1),
                    ..g.arena.position
                },
                ..g.arena
            },
            ..g
        }
    } else if key == 107 {
        Game {
            arena: Arena {
                size: Point { y: g.arena.size.y.saturating_add(1), ..g.arena.size },
                ..g.arena
            },
            ..g
        }
    } else if key == 106 {
        Game {
            arena: Arena {
                size: Point { y: g.arena.size.y.saturating_sub(1), ..g.arena.size },
                ..g.arena
            },
            ..g
        }
    } else if key == 108 {
        Game {
            arena: Arena {
                size: Point { x: g.arena.size.x.saturating_add(1), ..g.arena.size },
                ..g.arena
            },
            ..g
        }
    } else if key == 104 {
        Game {
            arena: Arena {
                size: Point { x: g.arena.size.x.saturating_sub(1), ..g.arena.size },
                ..g.arena
            },
            ..g
        }
    } else if key == 102 {
        Game { debug: !g.debug, ..g }
    } else if key == 112 {
        Game { paused: !g.paused, ..g }
    } else if key == 113 {
        Game { running: false, ..g }
    } else {
        g
    }
}

/// Inserts agent index `i` into a ranking already sorted by body length,
/// longest first: it lands after every entry at least as long, so earlier
/// agents stay first among equals.
pub open spec fn rank_insert(order: Seq<usize>, i: usize, snakes: Seq<Snake>) -> Seq<usize>
    decreases order.len(),
{
    if order.len() == 0 {
        seq![i]
    } else if snakes[order[0] as int].spec_len() >= snakes[i as int].spec_len() {
        seq![order[0]] + rank_insert(order.drop_first(), i, snakes)
    } else {
        seq![i] + order
    }
}

/// The agent indices below `n`, sorted by body length, longest first,
/// stable.
pub open spec fn ranking(snakes: Seq<Snake>, n: int) -> Seq<usize>
    decreases n,
{
    if n <= 0 {
        Seq::<usize>::empty()
    } else {
        rank_insert(ranking(snakes, n - 1), (n - 1) as usize, snakes)
    }
}

/// `rank_insert` places the new index exactly at the first position whose
/// entry is shorter.
pub proof fn lemma_rank_insert_at(order: Seq<usize>, i: usize, snakes: Seq<Snake>, pos: int)
    requires
        0 <= pos <= order.len(),
        forall|q: int|
            0 <= q < pos ==> snakes[order[q] as int].spec_len() >= snakes[i as int].spec_len(),
        pos < order.len() ==> snakes[order[pos] as int].spec_len() < snakes[
            i as int
        ].spec_len(),
    ensures
        rank_insert(order, i, snakes) =~= order.take(pos).push(i) + order.skip(pos),
    decreases order.len(),
{
    if order.len() > 0 && snakes[order[0] as int].spec_len() >= snakes[i as int].spec_len() {
        lemma_rank_insert_at(order.drop_first(), i, snakes, pos - 1);
        assert(rank_insert(order, i, snakes) =~= seq![order[0]] + (order.drop_first().take(
            pos - 1,
        ).push(i) + order.drop_first().skip(pos - 1)));
        assert(seq![order[0]] + (order.drop_first().take(pos - 1).push(i)
            + order.drop_first().skip(pos - 1)) =~= order.take(pos).push(i) + order.skip(
            pos,
        ));
    }
}

/// One scoreboard line: a cursor move, the agent's color, its name and its
/// body length.
pub open spec fn score_row(s: Snake, pos: Point) -> Seq<char> {
    mv_seq(pos) + fg_seq(s.color) + s.name@ + ": "@ + dec_seq(s.spec_len()) + "\n"@
}

/// The first `k` scoreboard lines, one physical row apart from `base`
/// down.
pub open spec fn score_rows(snakes: Seq<Snake>, order: Seq<usize>, base: Point, k: int) -> Seq<
    char,
>
    decreases k,
{
    if k <= 0 {
        Seq::<char>::empty()
    } else {
        score_rows(snakes, order, base, k - 1) + score_row(
            snakes[order[k - 1] as int],
            Point { x: base.x, y: (base.y + (k - 1)) as u8 },
        )
    }
}

/// The debug or hint line of the status display.
pub open spec fn ui_line2(debug: bool, delta: u64, tlen: nat, blen: nat, now: u64) -> Seq<
    char,
> {
    if debug {
        dec_seq((TIME_US / (sat_sub(now as int, delta as int) as u64)) as nat) + " FPS | T: "@
            + dec3_seq(tlen) + " | B: "@ + dec3_seq(blen)
    } else {
        "Press F for Debug information"@
    }
}

/// The speed, score, coordinate and arena size line of the status display,
/// ending in the whole seconds left of the player's cannibal window.
pub open spec fn ui_line1(size: Point, player: Snake, now: u64) -> Seq<char> {
    "SPEED: "@ + dec_seq((255 - player.speed) as nat) + "/255 | SCORE: "@ + dec_seq(
        player.spec_len(),
    ) + " | COORDS: "@ + dec3_seq(player.head_pt().x as nat) + ":"@ + dec3_seq(
        player.head_pt().y as nat,
    ) + " | ARENA SIZE: "@ + dec3_seq(size.x as nat) + ":"@ + dec3_seq(size.y as nat) + " "@
        + dec_seq((player.cannibal_until.saturating_sub(now) / 1000) as nat)
}

/// Both status lines, each preceded by its cursor move.
pub open spec fn ui_seq(g: Game, player: Snake, now: u64) -> Seq<char> {
    mv_seq(g.arena.position.shifted_spec((0i8, -2i8))) + ui_line2(
        g.debug,
        g.delta,
        g.top_halves.len() as nat,
        g.bottom_halves.len() as nat,
        now,
    ) + mv_seq(g.arena.position.shifted_spec((0i8, -1i8))) + ui_line1(g.arena.size, player, now)
}

/// Appends the debug or hint line.
fn push_ui_line2(f: &mut String, debug: bool, delta: u64, tlen: usize, blen: usize, now: u64)
    requires
        debug ==> now > delta,
    ensures
        final(f)@ == old(f)@ + ui_line2(debug, delta, tlen as nat, blen as nat, now),
{
    if debug {
        let fps = TIME_US / (now - delta);
        push_dec(f, fps);
        f.append(" FPS | T: ");
        push_dec3(f, tlen as u64);
        f.append(" | B: ");
        push_dec3(f, blen as u64);
    } else {
        f.append("Press F for Debug information");
    }
    proof {
        assert(final(f)@ =~= old(f)@ + ui_line2(debug, delta, tlen as nat, blen as nat, now));
    }
}

/// Appends the speed, score, coordinate and arena size line.
#[verifier::rlimit(50)]
fn push_ui_line1(f: &mut String, size: Point, player: &Snake, now: u64)
    requires
        player.wf(),
    ensures
        final(f)@ == old(f)@ + ui_line1(size, *player, now),
{
    f.append("SPEED: ");
    push_dec(f, player.speed() as u64);
    f.append("/255 | SCORE: ");
    push_dec(f, player.len() as u64);
    f.append(" | COORDS: ");
    push_dec3(f, player.head().x as u64);
    f.append(":");
    push_dec3(f, player.head().y as u64);
    f.append(" | ARENA SIZE: ");
    push_dec3(f, size.x as u64);
    f.append(":");
    push_dec3(f, size.y as u64);
    f.append(" ");
    push_dec(f, player.cannibal_until.saturating_sub(now) / 1000);
    proof {
        assert(final(f)@ =~= old(f)@ + ui_line1(size, *player, now));
    }
}

impl Game {
    /// A fresh engine: paused, not yet running, a 32 by 15 arena two cells
    /// in from the corner, thirty frames per second, and a frame buffer
    /// primed with the hide-cursor and clear-screen sequences.
    pub fn new(seed: u64) -> (r: Game)
        ensures
            r.rng.state == seed,
            r.top_halves@.len() == 0,
            r.bottom_halves@.len() == 0,
            r.arena.position == (Point { x: 2, y: 2 }),
            r.arena.size == (Point { x: 32, y: 15 }),
            r.delta == 0,
            !r.running,
            r.paused,
            r.frame_duration_us == TIME_US / 30,
            !r.debug,
            r.frame@ == "\u{1b}[?25l\u{1b}[2J"@,
    {
        Game {
            rng: Rng::new(seed),
            top_halves: Vec::new(),
            bottom_halves: Vec::new(),
            arena: Arena::new(2, 2, 32, 15),
            delta: 0,
            running: false,
            paused: true,
            frame_duration_us: TIME_US / 30,
            debug: false,
            frame: String::from_str("\u{1b}[?25l\u{1b}[2J"),
        }
    }

    /// Sets the arena's interior size.
    pub fn resize_arena(&mut self, w: u8, h: u8) -> (r: &mut Game)
        ensures
            *r == (Game {
                arena: Arena { size: Point { x: w, y: h }, ..old(self).arena },
                ..*old(self)
            }),
            *final(self) == *final(r),
    {
        self.arena.size.x = w;
        self.arena.size.y = h;
        self
    }

    /// Sets the arena's viewport offset.
    pub fn move_arena(&mut self, x: u8, y: u8) -> (r: &mut Game)
        ensures
            *r == (Game {
                arena: Arena { position: Point { x, y }, ..old(self).arena },
                ..*old(self)
            }),
            *final(self) == *final(r),
    {
        self.arena.position.x = x;
        self.arena.position.y = y;
        self
    }

    /// Sets the frame pacing to `fps` rendered frames per second.
    pub fn fps(&mut self, fps: u64) -> (r: &mut Game)
        requires
            fps >= 1,
        ensures
            *r == (Game { frame_duration_us: TIME_US / fps, ..*old(self) }),
            *final(self) == *final(r),
    {
        self.frame_duration_us = TIME_US / fps;
        self
    }

    /// Appends the score table to the frame: one line per agent in `order`,
    /// each showing its name and body length in its color, longest first.
    pub fn render_scoreboard(&mut self, snakes: &Vec<Snake>)
        requires
            old(self).arena.position.x + old(self).arena.size.x + 2 <= u8::MAX,
            old(self).arena.position.y + 1 + snakes@.len() <= u8::MAX,
        ensures
            ({
                let base = Point {
                    x: (old(self).arena.position.x + old(self).arena.size.x + 2) as u8,
                    y: (old(self).arena.position.y + 1) as u8,
                };
                let order = ranking(snakes@, snakes@.len() as int);
                final(self).frame@ == old(self).frame@ + score_rows(
                    snakes@,
                    order,
                    base,
                    snakes@.len() as int,
                ) + reset_seq()
            }),
            *final(self) == (Game { frame: final(self).frame, ..*old(self) }),
    {
        let n = snakes.len();
        let mut order: Vec<usize> = Vec::new();
        let mut i: usize = 0;
        while i < n
            invariant
                i <= n,
                n == snakes@.len(),
                order@ == ranking(snakes@, i as int),
                order@.len() == i,
                forall|q: int| 0 <= q < order@.len() ==> order@[q] < n,
            decreases n - i,
        {
            let mut pos: usize = 0;
            while (pos < order.len() && snakes[order[pos]].len() >= snakes[i].len())
                invariant
                    pos <= order@.len(),
                    n == snakes@.len(),
                    i < n,
                    forall|q: int| 0 <= q < order@.len() ==> order@[q] < n,
                    forall|q: int|
                        0 <= q < pos ==> snakes@[order@[q] as int].spec_len()
                            >= snakes@[i as int].spec_len(),
                decreases order@.len() - pos,
            {
                pos = pos + 1;
            }
            let ghost before = order@;
            order.insert(pos, i);
            proof {
                lemma_rank_insert_at(before, i, snakes@, pos as int);
                assert(order@ =~= before.take(pos as int).push(i) + before.skip(pos as int));
                assert(order@ =~= ranking(snakes@, i as int + 1));
            }
            i = i + 1;
        }
        let base = Point::new(
            self.arena.position.x + self.arena.size.x + 2,
            self.arena.position.y + 1,
        );
        let mut k: usize = 0;
        while k < n
            invariant
                k <= n,
                n == snakes@.len(),
                n + base.y <= 256,
                order@ == ranking(snakes@, n as int),
                forall|q: int| 0 <= q < order@.len() ==> order@[q] < n,
                order@.len() == n,
                self.frame@ == old(self).frame@ + score_rows(
                    snakes@,
                    order@,
                    base,
                    k as int,
                ),
                *self == (Game { frame: self.frame, ..*old(self) }),
                base == (Point {
                    x: (old(self).arena.position.x + old(self).arena.size.x + 2) as u8,
                    y: (old(self).arena.position.y + 1) as u8,
                }),
            decreases n - k,
        {
            let ghost before = self.frame@;
            let idx = order[k];
            let row_pos = Point::new(base.x, base.y + k as u8);
            mv(&mut self.frame, &row_pos);
            fg(&mut self.frame, snakes[idx].color);
            self.frame.append(snakes[idx].name);
            self.frame.append(": ");
            push_dec(&mut self.frame, snakes[idx].len() as u64);
            self.frame.append("\n");
            proof {
                assert(self.frame@ =~= before + score_row(snakes@[idx as int], row_pos));
                assert(self.frame@ =~= old(self).frame@ + score_rows(
                    snakes@,
                    order@,
                    base,
                    k as int + 1,
                ));
            }
            k = k + 1;
        }
        reset(&mut self.frame);
    }

    /// Appends the two status lines above the arena to the frame: the debug
    /// or hint line two rows up, and the speed, score, coordinate and arena
    /// size line one row up. The trailing number shows how many whole
    /// seconds of the player's cannibal window are left.
    pub fn render_ui(&mut self, player: &Snake, now: u64)
        requires
            player.wf(),
            old(self).debug ==> now > old(self).delta,
        ensures
            final(self).frame@ == old(self).frame@ + ui_seq(*old(self), *player, now),
            *final(self) == (Game { frame: final(self).frame, ..*old(self) }),
    {
        let line2 = self.arena.position.shifted((0, -2));
        mv(&mut self.frame, &line2);
        let tlen = self.top_halves.len();
        let blen = self.bottom_halves.len();
        push_ui_line2(&mut self.frame, self.debug, self.delta, tlen, blen, now);
        let line1 = self.arena.position.shifted((0, -1));
        mv(&mut self.frame, &line1);
        push_ui_line1(&mut self.frame, self.arena.size, player, now);
        proof {
            assert(final(self).frame@ =~= old(self).frame@ + ui_seq(
                *old(self),
                *player,
                now,
            ));
        }
    }

    /// Dispatches one key press: steering keys turn the player, arrow-key
    /// bytes move the arena, four letter keys resize it, and single keys
    /// toggle the debug overlay, pause, and the running flag.
    pub fn handle_input(&mut self, key: u8, player: &mut Snake)
        ensures
            *final(self) == game_after_key(*old(self), key),
            *final(player) == player_after_key(*old(player), key),
    {
        match key {
            119 => player.steer(Direction::Up),
            100 => player.steer(Direction::Right),
            115 => player.steer(Direction::Down),
            97 => player.steer(Direction::Left),
            66 => self.arena.position.y = self.arena.position.y.saturating_add(1),
            65 => self.arena.position.y = self.arena.position.y.saturating_sub(1),
            67 => self.arena.position.x = self.arena.position.x.saturating_add(1),
            68 => self.arena.position.x = self.arena.position.x.saturating_sub(1),
            107 => self.arena.size.y = self.arena.size.y.saturating_add(1),
            106 => self.arena.size.y = self.arena.size.y.saturating_sub(1),
            108 => self.arena.size.x = self.arena.size.x.saturating_add(1),
            104 => self.arena.size.x = self.arena.size.x.saturating_sub(1),
            102 => self.debug = !self.debug,
            112 => self.paused = !self.paused,
            113 => self.running = false,
            _ => (),
        }
    }
}

} // verus!
