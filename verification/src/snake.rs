//! The serpent agents: a ring-buffer body on the torus, movement with crash
//! detection and kill attribution, the death/respawn lifecycle, feeding, and
//! the autonomous targeting and steering heuristics.

use vstd::prelude::*;
use crate::map::{best_food_idx, locate_food, sat_sub, Arena, Effect, Food, Strategy,
    EFFECT_MILLIS, effect_growth, strategy_color};
use crate::esc::{bg, bg_seq, fg, fg_seq, mv_seq, reset, reset_seq};
use crate::math::{cycle_back, quick_dist, random_point, rng_next, torus_step, ColoredPoint,
    Direction, Point, Rng};

verus! {

/// An agent. The body lives in a circular buffer: `body[head]` is the head
/// segment and the logical order runs `head, head + 1, ...` wrapping around,
/// so the tail sits at `head - 1` modulo the length.
pub struct Snake {
    pub name: &'static str,
    pub color: u8,
    pub body: Vec<Point>,
    /// The deadline of the cannibal power window: the agent is in cannibal
    /// mode while `now < cannibal_until`.
    pub cannibal_until: u64,
    pub head: usize,
    pub dir: Direction,
    /// Inverted magnitude: the delay in clock ticks between moves; lower is
    /// faster.
    pub speed: u8,
    /// The clock reading of this agent's last movement step.
    pub delta: u64,
    pub alive: bool,
    pub strat: Strategy,
}

impl Snake {
    /// A nonempty body with its head index inside it.
    pub open spec fn wf(self) -> bool {
        1 <= self.body@.len() && self.head < self.body@.len()
    }

    /// The body in logical order: the head segment first, the tail last.
    pub open spec fn body_seq(self) -> Seq<Point> {
        self.body@.skip(self.head as int) + self.body@.take(self.head as int)
    }

    pub open spec fn spec_len(self) -> nat {
        self.body@.len()
    }

    pub open spec fn head_pt(self) -> Point {
        self.body_seq()[0]
    }

    pub open spec fn tail_pt(self) -> Point {
        self.body_seq()[self.body_seq().len() - 1]
    }

    /// The raw buffer index of the tail segment.
    pub open spec fn spec_tail_idx(self) -> int {
        if self.head == 0 {
            self.body@.len() - 1
        } else {
            self.head - 1
        }
    }

    /// Whether the cannibal power window is open at clock reading `now`.
    pub open spec fn cannibal_active(self, now: u64) -> bool {
        now < self.cannibal_until
    }
}

/// Everything but the body and its head index agrees between `a` and `b`.
pub open spec fn same_identity(a: Snake, b: Snake) -> bool {
    &&& a.name@ == b.name@
    &&& a.color == b.color
    &&& a.cannibal_until == b.cannibal_until
    &&& a.dir == b.dir
    &&& a.speed == b.speed
    &&& a.delta == b.delta
    &&& a.alive == b.alive
    &&& a.strat == b.strat
}

impl Snake {
    pub fn head(&self) -> (r: &Point)
        requires
            self.wf(),
        ensures
            *r == self.head_pt(),
    {
        proof {
            assert(self.body_seq()[0] == self.body@[self.head as int]);
        }
        &self.body[self.head]
    }

    pub fn head_mut(&mut self) -> (r: &mut Point)
        requires
            old(self).wf(),
        ensures
            *r == old(self).body@[old(self).head as int],
            final(self).body@ == old(self).body@.update(old(self).head as int, *final(r)),
            final(self).head == old(self).head,
            same_identity(*final(self), *old(self)),
    {
        &mut self.body[self.head]
    }

    pub fn tail_idx(&self) -> (r: usize)
        requires
            self.wf(),
        ensures
            r == self.spec_tail_idx(),
    {
        if self.head == 0 {
            self.body.len() - 1
        } else {
            self.head - 1
        }
    }

    pub fn tail(&self) -> (r: &Point)
        requires
            self.wf(),
        ensures
            *r == self.tail_pt(),
    {
        proof {
            lemma_tail_raw(*self);
        }
        let t = self.tail_idx();
        &self.body[t]
    }

    /// The displayed speed: the inverse of the stored delay.
    pub fn speed(&self) -> (r: u8)
        ensures
            r == 255 - self.speed,
    {
        u8::MAX - self.speed
    }

    /// Whether this agent's personal movement timer has elapsed at clock
    /// reading `now`; if so the timer restarts at `now`.
    pub fn can_move(&mut self, now: u64) -> (r: bool)
        ensures
            r == (sat_sub(now as int, old(self).delta as int) >= old(self).speed),
            *final(self) == (Snake {
                delta: if r {
                    now
                } else {
                    old(self).delta
                },
                ..*old(self)
            }),
    {
        if now.saturating_sub(self.delta) >= self.speed as u64 {
            self.delta = now;
            return true;
        }
        false
    }

    /// Lowers the stored delay (raising the effective speed), saturating at
    /// zero.
    pub fn add_speed(&mut self, speed: u8)
        ensures
            *final(self) == (Snake { speed: old(self).speed.saturating_sub(speed), ..*old(self) }),
    {
        self.speed = self.speed.saturating_sub(speed);
    }

    pub fn len(&self) -> (r: usize)
        ensures
            r == self.spec_len(),
    {
        self.body.len()
    }

    /// Whether the cannibal power window is open at clock reading `now`.
    pub fn is_cannibal(&self, now: u64) -> (r: bool)
        ensures
            r == self.cannibal_active(now),
    {
        now < self.cannibal_until
    }

    /// Turns toward `dir`, unless that would be an immediate reversal: a
    /// steer to the inverse of the current heading is a no-op.
    pub fn steer(&mut self, dir: Direction)
        ensures
            *final(self) == (Snake {
                dir: if old(self).dir.inverse_spec() == dir {
                    old(self).dir
                } else {
                    dir
                },
                ..*old(self)
            }),
    {
        self.dir = if self.dir.inverse() == dir {
            self.dir
        } else {
            dir
        };
    }

    /// Appends `n` segments at `pt` to the logical end of the body.
    pub fn grow(&mut self, n: usize, pt: Point)
        requires
            old(self).wf(),
            old(self).body@.len() + n <= usize::MAX,
        ensures
            final(self).wf(),
            final(self).body_seq() == old(self).body_seq() + Seq::new(n as nat, |i: int| pt),
            same_identity(*final(self), *old(self)),
    {
        let mut i: usize = 0;
        while i < n
            invariant
                i <= n,
                self.wf(),
                old(self).body@.len() + n <= usize::MAX,
                self.body@.len() == old(self).body@.len() + i,
                self.body_seq() == old(self).body_seq() + Seq::new(i as nat, |k: int| pt),
                same_identity(*self, *old(self)),
            decreases n - i,
        {
            let ghost prev_body = self.body@;
            let ghost prev_seq = self.body_seq();
            let h = self.head;
            proof {
                assert(h + 1 <= old(self).body@.len() + n);
            }
            self.body.insert(h, pt);
            self.head = h + 1;
            proof {
                assert(self.body@.skip(h as int + 1) =~= prev_body.skip(h as int));
                assert(self.body@.take(h as int + 1) =~= prev_body.take(h as int).push(pt));
                assert(self.body_seq() =~= prev_seq + seq![pt]);
                assert(prev_seq + seq![pt] =~= old(self).body_seq() + Seq::new(
                    (i + 1) as nat,
                    |k: int| pt,
                ));
            }
            i = i + 1;
        }
    }
}

/// The display name that a draw below 6 selects.
pub open spec fn snake_name(i: int) -> Seq<char> {
    if i == 0 {
        "Sidewinder"@
    } else if i == 1 {
        "Boa"@
    } else if i == 2 {
        "Viper"@
    } else if i == 3 {
        "Mamba"@
    } else if i == 4 {
        "Cobra"@
    } else {
        "Python"@
    }
}

/// The display name that a draw below 6 selects.
fn pick_name(i: u64) -> (r: &'static str)
    requires
        i < 6,
    ensures
        r@ == snake_name(i as int),
{
    match i {
        0 => "Sidewinder",
        1 => "Boa",
        2 => "Viper",
        3 => "Mamba",
        4 => "Cobra",
        _ => "Python",
    }
}

impl Snake {
    /// Removes the logical tail segment, provided the body stays above the
    /// minimum viable length of 3; below that nothing changes.
    pub fn remove_tail(&mut self) -> (r: bool)
        requires
            old(self).wf(),
        ensures
            old(self).spec_len() > 3 ==> r && final(self).wf() && final(self).body_seq()
                == old(self).body_seq().drop_last() && same_identity(
                *final(self),
                *old(self),
            ),
            old(self).spec_len() <= 3 ==> !r && *final(self) == *old(self),
    {
        if self.body.len() > 3 {
            let ghost prev_body = self.body@;
            let ghost prev_seq = self.body_seq();
            let t = self.tail_idx();
            self.body.remove(t);
            if self.head > 0 {
                self.head = self.head - 1;
            }
            proof {
                let h = old(self).head as int;
                let n = prev_body.len() as int;
                if h == 0 {
                    assert(self.body@ =~= prev_body.take(n - 1));
                    assert(self.body_seq() =~= prev_seq.drop_last());
                } else {
                    assert(self.body@.skip(h - 1) =~= prev_body.skip(h));
                    assert(self.body@.take(h - 1) =~= prev_body.take(h - 1));
                    assert(self.body_seq() =~= prev_seq.drop_last());
                }
            }
            true
        } else {
            false
        }
    }

    /// A freshly created agent: a body of `len` coincident segments at a
    /// random point, a random heading, the default delay, and an expired
    /// cannibal window. The generator is drawn from four times: name, body
    /// point (twice), heading.
    pub fn random(len: usize, strat: Strategy, rng: &mut Rng, end: &Point) -> (r: Snake)
        requires
            1 <= len,
            1 <= end.x,
            1 <= end.y <= 127,
        ensures
            ({
                let s1 = rng_next(old(rng).state);
                let p = random_point(s1, *end);
                let s3 = rng_next(rng_next(s1));
                &&& r.wf()
                &&& r.spec_len() == len
                &&& forall|i: int| 0 <= i < len ==> r.body_seq()[i] == p
                &&& r.head == len - 1
                &&& r.name@ == snake_name((s1 % 6) as int)
                &&& r.color == strategy_color(strat)
                &&& r.dir == crate::math::direction_of_index(rng_next(s3) % 4)
                &&& r.speed == 55
                &&& r.delta == 0
                &&& r.alive
                &&& r.strat == strat
                &&& r.cannibal_until == 0
                &&& final(rng).state == rng_next(s3)
            }),
    {
        let name = pick_name(rng.generate(6));
        let color = strat.color();
        let p = Point::random(rng, end);
        let mut body: Vec<Point> = Vec::new();
        let mut i: usize = 0;
        while i < len
            invariant
                i <= len,
                body@.len() == i,
                forall|k: int| 0 <= k < i ==> body@[k] == p,
            decreases len - i,
        {
            body.push(p);
            i = i + 1;
        }
        let dir = Direction::random(rng);
        let r = Snake {
            name,
            color,
            body,
            cannibal_until: 0,
            head: len - 1,
            dir,
            speed: 55,
            delta: 0,
            alive: true,
            strat,
        };
        proof {
            assert forall|k: int| 0 <= k < len implies r.body_seq()[k] == p by {
                let h = r.head as int;
                if k < len - h {
                    assert(r.body_seq()[k] == r.body@[h + k]);
                } else {
                    assert(r.body_seq()[k] == r.body@[k - (len - h)]);
                }
            }
        }
        r
    }
}

/// Whether candidate head `p` hits a segment of `s`. The tail segment is
/// exempt from the test when the mover is in cannibal mode.
pub open spec fn hits_body(s: Snake, p: Point, cannibal: bool) -> bool {
    exists|k: int|
        0 <= k < s.body_seq().len() && s.body_seq()[k] == p && !(cannibal && k
            == s.body_seq().len() - 1)
}

/// Whether moving agent `idx`'s head to `p` crashes into any agent's body,
/// the mover's own included.
pub open spec fn crash_at(snakes: Seq<Snake>, idx: int, p: Point, now: u64) -> bool {
    exists|i: int|
        0 <= i < snakes.len() && hits_body(snakes[i], p, snakes[idx].cannibal_active(now))
}

/// The first agent index whose body `p` hits, `-1` when none does.
pub open spec fn first_hit(snakes: Seq<Snake>, p: Point, cannibal: bool) -> int
    decreases snakes.len(),
{
    if snakes.len() == 0 {
        -1
    } else {
        let b = first_hit(snakes.drop_last(), p, cannibal);
        if b != -1 {
            b
        } else if hits_body(snakes[snakes.len() - 1], p, cannibal) {
            snakes.len() - 1
        } else {
            -1
        }
    }
}

/// `first_hit` returns the least hit index, or `-1` exactly when nothing is
/// hit.
pub proof fn lemma_first_hit(snakes: Seq<Snake>, p: Point, cannibal: bool)
    ensures
        first_hit(snakes, p, cannibal) == -1 ==> forall|i: int|
            0 <= i < snakes.len() ==> !hits_body(snakes[i], p, cannibal),
        first_hit(snakes, p, cannibal) != -1 ==> {
            let fh = first_hit(snakes, p, cannibal);
            &&& 0 <= fh < snakes.len()
            &&& hits_body(snakes[fh], p, cannibal)
            &&& forall|i: int| 0 <= i < fh ==> !hits_body(snakes[i], p, cannibal)
        },
    decreases snakes.len(),
{
    if snakes.len() > 0 {
        lemma_first_hit(snakes.drop_last(), p, cannibal);
        assert(forall|i: int|
            0 <= i < snakes.len() - 1 ==> snakes.drop_last()[i] == snakes[i]);
    }
}

/// When `i` is a hit and nothing before it is, `first_hit` returns `i`.
pub proof fn lemma_first_hit_at(snakes: Seq<Snake>, p: Point, cannibal: bool, i: int)
    requires
        0 <= i < snakes.len(),
        hits_body(snakes[i], p, cannibal),
        forall|j: int| 0 <= j < i ==> !hits_body(snakes[j], p, cannibal),
    ensures
        first_hit(snakes, p, cannibal) == i,
    decreases snakes.len(),
{
    assert(forall|j: int|
        0 <= j < snakes.len() - 1 ==> snakes.drop_last()[j] == snakes[j]);
    if i == snakes.len() - 1 {
        lemma_first_hit(snakes.drop_last(), p, cannibal);
        if first_hit(snakes.drop_last(), p, cannibal) != -1 {
            let fh = first_hit(snakes.drop_last(), p, cannibal);
            assert(hits_body(snakes[fh], p, cannibal));
        }
    } else {
        lemma_first_hit_at(snakes.drop_last(), p, cannibal, i);
    }
}

/// The logical-order hit test equals the raw-buffer hit test with the tail
/// exemption applied at the raw tail index.
pub proof fn lemma_hits_raw(s: Snake, p: Point, cannibal: bool)
    requires
        s.wf(),
    ensures
        hits_body(s, p, cannibal) <==> exists|j: int|
            0 <= j < s.body@.len() && s.body@[j] == p && !(cannibal && j == s.spec_tail_idx()),
{
    let n = s.body@.len() as int;
    let h = s.head as int;
    if hits_body(s, p, cannibal) {
        let k = choose|k: int|
            0 <= k < s.body_seq().len() && s.body_seq()[k] == p && !(cannibal && k
                == s.body_seq().len() - 1);
        let j = if k < n - h {
            h + k
        } else {
            k - (n - h)
        };
        assert(s.body_seq()[k] == s.body@[j]);
        if h == 0 {
            assert((k == n - 1) == (j == s.spec_tail_idx()));
        } else {
            assert((k == n - 1) == (j == s.spec_tail_idx()));
        }
        assert(0 <= j < n && s.body@[j] == p && !(cannibal && j == s.spec_tail_idx()));
    }
    if exists|j: int|
        0 <= j < s.body@.len() && s.body@[j] == p && !(cannibal && j == s.spec_tail_idx()) {
        let j = choose|j: int|
            0 <= j < s.body@.len() && s.body@[j] == p && !(cannibal && j
                == s.spec_tail_idx());
        let k = if j >= h {
            j - h
        } else {
            j + (n - h)
        };
        assert(s.body_seq()[k] == s.body@[j]);
        assert((k == n - 1) == (j == s.spec_tail_idx()));
        assert(0 <= k < s.body_seq().len() && s.body_seq()[k] == p && !(cannibal && k
            == s.body_seq().len() - 1));
    }
}

impl Snake {
    /// Whether moving agent `idx`'s head to `head` would crash into any
    /// agent's body, the mover's own included; an agent in cannibal mode may
    /// enter any tail cell. When the crash is into another agent's body,
    /// that agent's index is recorded as the killer.
    pub fn is_crash(
        snakes: &Vec<Snake>,
        idx: usize,
        head: &Point,
        killer: &mut Option<usize>,
        now: u64,
    ) -> (r: bool)
        requires
            idx < snakes@.len(),
            forall|i: int| 0 <= i < snakes@.len() ==> snakes@[i].wf(),
        ensures
            r == crash_at(snakes@, idx as int, *head, now),
            !r ==> *final(killer) == *old(killer),
            r ==> ({
                let fh = first_hit(snakes@, *head, snakes@[idx as int].cannibal_active(now));
                &&& 0 <= fh < snakes@.len()
                &&& (fh != idx ==> *final(killer) == Some(fh as usize))
                &&& (fh == idx ==> *final(killer) == *old(killer))
            }),
    {
        let cannibal = snakes[idx].is_cannibal(now);
        let mut i: usize = 0;
        while i < snakes.len()
            invariant
                i <= snakes@.len(),
                idx < snakes@.len(),
                forall|k: int| 0 <= k < snakes@.len() ==> snakes@[k].wf(),
                cannibal == snakes@[idx as int].cannibal_active(now),
                forall|j: int| 0 <= j < i ==> !hits_body(snakes@[j], *head, cannibal),
                *killer == *old(killer),
            decreases snakes@.len() - i,
        {
            let s = &snakes[i];
            let t = s.tail_idx();
            let mut j: usize = 0;
            let mut hit = false;
            while j < s.body.len()
                invariant
                    j <= s.body@.len(),
                    s.wf(),
                    *s == snakes@[i as int],
                    i < snakes@.len(),
                    t == s.spec_tail_idx(),
                    hit <==> exists|j2: int|
                        0 <= j2 < j && s.body@[j2] == *head && !(cannibal && j2 == t),
                decreases s.body@.len() - j,
            {
                if !(cannibal && j == t) && s.body[j] == *head {
                    hit = true;
                }
                j = j + 1;
            }
            proof {
                lemma_hits_raw(snakes@[i as int], *head, cannibal);
            }
            if hit {
                if idx != i {
                    *killer = Some(i);
                }
                proof {
                    lemma_first_hit_at(snakes@, *head, cannibal, i as int);
                }
                return true;
            }
            i = i + 1;
        }
        false
    }
}

/// The candidate head of one movement tick: one torus step along the
/// current heading.
pub open spec fn serpentine_cand(s: Snake, arena: Arena) -> Point {
    torus_step(s.head_pt(), s.dir, arena.size)
}

/// The outcome of one shedding tick for an agent that is not alive: above
/// the minimum length the tail is shed; at or below it the agent comes back
/// alive with its head relocated to the random point that the generator
/// state `rs0` yields, advancing the generator to `rs1`.
pub open spec fn shed_outcome(s: Snake, t: Snake, rs0: u64, rs1: u64, size: Point) -> bool {
    if s.spec_len() > 3 {
        &&& t.body_seq() == s.body_seq().drop_last()
        &&& t.spec_len() == s.spec_len() - 1
        &&& same_identity(t, s)
        &&& rs1 == rs0
    } else {
        &&& t.body_seq() == s.body_seq().update(0, random_point(rs0, size))
        &&& t.spec_len() == s.spec_len()
        &&& t.alive
        &&& same_identity(t, (Snake { alive: true, ..s }))
        &&& rs1 == rng_next(rng_next(rs0))
    }
}

impl Snake {
    /// One movement tick of agent `idx`. The candidate head is one torus
    /// step along the current heading. A living agent commits it unless it
    /// crashes; on a crash the agent dies (slow dying speed, cannibal window
    /// closed) and the first agent whose body was hit — if another — grows
    /// by the dying agent's whole length at its own head, as transferred
    /// score. An agent that is not alive sheds one tail segment instead of
    /// moving; when it cannot shed without falling below the minimum viable
    /// length it comes back alive with its head relocated to a fresh random
    /// cell.
    #[verifier::rlimit(100)]
    pub fn serpentine(
        snakes: &mut Vec<Snake>,
        idx: usize,
        rng: &mut Rng,
        arena: &Arena,
        now: u64,
    )
        requires
            idx < old(snakes)@.len(),
            forall|i: int| 0 <= i < old(snakes)@.len() ==> old(snakes)@[i].wf(),
            arena.wf(),
            forall|i: int|
                0 <= i < old(snakes)@.len() ==> old(snakes)@[i].spec_len() + old(snakes)@[idx as int].spec_len() <= usize::MAX,
        ensures
            final(snakes)@.len() == old(snakes)@.len(),
            forall|i: int| 0 <= i < final(snakes)@.len() ==> final(snakes)@[i].wf(),
            ({
                let prev = old(snakes)@;
                let s = prev[idx as int];
                let cand = serpentine_cand(s, *arena);
                s.alive && !crash_at(prev, idx as int, cand, now) ==> {
                    &&& (forall|j: int|
                        0 <= j < prev.len() && j != idx ==> final(snakes)@[j] == prev[j])
                    &&& final(snakes)@[idx as int].body_seq() == seq![cand]
                        + s.body_seq().drop_last()
                    &&& same_identity(final(snakes)@[idx as int], s)
                    &&& final(rng).state == old(rng).state
                }
            }),
            ({
                let prev = old(snakes)@;
                let s = prev[idx as int];
                let cand = serpentine_cand(s, *arena);
                s.alive && crash_at(prev, idx as int, cand, now) ==> {
                    let fh = first_hit(prev, cand, s.cannibal_active(now));
                    let dead = (Snake { alive: false, cannibal_until: now, speed: 80, ..s });
                    &&& (forall|j: int|
                        0 <= j < prev.len() && j != idx && j != fh ==> final(snakes)@[j]
                            == prev[j])
                    &&& (fh != idx ==> final(snakes)@[fh].body_seq() == prev[fh].body_seq()
                        + Seq::new(s.spec_len(), |q: int| prev[fh].head_pt())
                        && final(snakes)@[fh].spec_len() == prev[fh].spec_len()
                            + s.spec_len() && same_identity(final(snakes)@[fh], prev[fh]))
                    &&& !final(snakes)@[idx as int].alive || s.spec_len() <= 3
                    &&& shed_outcome(
                        dead,
                        final(snakes)@[idx as int],
                        old(rng).state,
                        final(rng).state,
                        arena.size,
                    )
                }
            }),
            ({
                let prev = old(snakes)@;
                let s = prev[idx as int];
                !s.alive ==> {
                    &&& (forall|j: int|
                        0 <= j < prev.len() && j != idx ==> final(snakes)@[j] == prev[j])
                    &&& shed_outcome(
                        s,
                        final(snakes)@[idx as int],
                        old(rng).state,
                        final(rng).state,
                        arena.size,
                    )
                }
            }),
    {
        let n_agents = snakes.len();
        proof {
            assert(old(snakes)@.len() == n_agents <= usize::MAX);
        }
        let head_pt = *snakes[idx].head();
        let dir = snakes[idx].dir;
        let cand = head_pt.step(dir, &arena.size);
        let mut killer: Option<usize> = None;
        let alive0 = snakes[idx].alive;
        let crashed = alive0 && Snake::is_crash(snakes, idx, &cand, &mut killer, now);
        let ghost prev = old(snakes)@;
        let ghost can = prev[idx as int].cannibal_active(now);
        if crashed {
            proof {
                lemma_first_hit(prev, cand, can);
                let fh = first_hit(prev, cand, can);
                assert(crash_at(prev, idx as int, cand, now));
                if fh == idx {
                    assert(killer == Option::<usize>::None);
                } else {
                    assert(killer == Some(fh as usize));
                    assert(0 <= fh < prev.len() <= usize::MAX);
                    assert(fh as usize != idx);
                    assert(prev[fh].spec_len() + prev[idx as int].spec_len() <= usize::MAX);
                }
            }
            Snake::apply_death(snakes, idx, killer, now);
        }
        let ghost mid = snakes@;
        Snake::advance_or_shed(snakes, idx, cand, rng, arena);
        proof {
            assert(forall|j: int|
                0 <= j < prev.len() && j != idx && (killer != Some(j as usize) || !crashed)
                    ==> mid[j] == prev[j]);
            if prev[idx as int].alive && !crash_at(prev, idx as int, cand, now) {
                assert(mid[idx as int] == prev[idx as int]);
            } else if prev[idx as int].alive {
                assert(mid[idx as int].body_seq() == prev[idx as int].body_seq());
            } else {
                assert(mid[idx as int] == prev[idx as int]);
            }
            if crashed {
                let fh = first_hit(prev, cand, can);
                if 0 <= fh < prev.len() && fh != idx {
                    lemma_body_seq_len(prev[fh]);
                    lemma_body_seq_len(snakes@[fh]);
                }
            }
            assert forall|i: int| 0 <= i < snakes@.len() implies snakes@[i].wf() by {
                if i != idx && (!crashed || killer != Some(i as usize)) {
                    assert(snakes@[i] == prev[i]);
                }
            }
        }
    }

    /// Marks agent `idx` dead — dying speed, cannibal window closed — and
    /// transfers its length to the killer, when one was attributed: the
    /// killer grows by that many segments at its own head.
    fn apply_death(snakes: &mut Vec<Snake>, idx: usize, killer: Option<usize>, now: u64)
        requires
            idx < old(snakes)@.len(),
            forall|i: int| 0 <= i < old(snakes)@.len() ==> old(snakes)@[i].wf(),
            killer is Some ==> killer->Some_0 < old(snakes)@.len() && killer->Some_0 != idx
                && old(snakes)@[killer->Some_0 as int].spec_len() + old(snakes)@[idx as int].spec_len() <= usize::MAX,
        ensures
            final(snakes)@.len() == old(snakes)@.len(),
            forall|i: int| 0 <= i < final(snakes)@.len() ==> final(snakes)@[i].wf(),
            forall|j: int|
                0 <= j < old(snakes)@.len() && j != idx && Some(j as usize) != killer ==> final(snakes)@[j] == old(snakes)@[j],
            final(snakes)@[idx as int] == (Snake {
                alive: false,
                cannibal_until: now,
                speed: 80,
                ..old(snakes)@[idx as int]
            }),
            killer is Some ==> ({
                let ki = killer->Some_0 as int;
                final(snakes)@[ki].body_seq() == old(snakes)@[ki].body_seq() + Seq::new(
                    old(snakes)@[idx as int].spec_len(),
                    |q: int| old(snakes)@[ki].head_pt(),
                ) && same_identity(final(snakes)@[ki], old(snakes)@[ki])
            }),
    {
        {
            let s = &mut snakes[idx];
            s.alive = false;
            s.cannibal_until = now;
            s.speed = 80;
        }
        proof {
            assert(snakes@ =~= old(snakes)@.update(
                idx as int,
                (Snake {
                    alive: false,
                    cannibal_until: now,
                    speed: 80,
                    ..old(snakes)@[idx as int]
                }),
            ));
        }
        if let Option::Some(ki) = killer {
            let ghost v1 = snakes@;
            let score = snakes[idx].len();
            let kp = *snakes[ki].head();
            let k = &mut snakes[ki];
            k.grow(score, kp);
            proof {
                assert(snakes@ =~= v1.update(ki as int, snakes@[ki as int]));
            }
        }
    }

    /// The second half of a movement tick: a living agent commits the
    /// candidate head; a dead one sheds its tail, or — when it cannot
    /// without falling below the minimum length — comes back alive with a
    /// freshly randomized head.
    #[verifier::rlimit(100)]
    fn advance_or_shed(
        snakes: &mut Vec<Snake>,
        idx: usize,
        cand: Point,
        rng: &mut Rng,
        arena: &Arena,
    )
        requires
            idx < old(snakes)@.len(),
            forall|i: int| 0 <= i < old(snakes)@.len() ==> old(snakes)@[i].wf(),
            arena.wf(),
        ensures
            final(snakes)@.len() == old(snakes)@.len(),
            forall|j: int|
                0 <= j < old(snakes)@.len() && j != idx ==> final(snakes)@[j] == old(snakes)@[j],
            final(snakes)@[idx as int].wf(),
            old(snakes)@[idx as int].alive ==> {
                let s = old(snakes)@[idx as int];
                &&& final(snakes)@[idx as int].body_seq() == seq![cand]
                    + s.body_seq().drop_last()
                &&& same_identity(final(snakes)@[idx as int], s)
                &&& final(rng).state == old(rng).state
            },
            !old(snakes)@[idx as int].alive ==> shed_outcome(
                old(snakes)@[idx as int],
                final(snakes)@[idx as int],
                old(rng).state,
                final(rng).state,
                arena.size,
            ),
    {
        let ghost mid = snakes@;
        if snakes[idx].alive {
            let s = &mut snakes[idx];
            s.commit_move(cand);
            proof {
                assert(snakes@ =~= mid.update(idx as int, snakes@[idx as int]));
            }
        } else {
            let s = &mut snakes[idx];
            if !s.remove_tail() {
                s.alive = true;
                let p = Point::random(rng, &arena.size);
                s.set_head_pt(p);
            }
            proof {
                assert(snakes@ =~= mid.update(idx as int, snakes@[idx as int]));
                lemma_body_seq_len(mid[idx as int]);
                lemma_body_seq_len(snakes@[idx as int]);
            }
        }
    }

    /// Advances the ring one step toward `cand`: the head index cycles back
    /// and the vacated tail slot holds the new head.
    fn commit_move(&mut self, cand: Point)
        requires
            old(self).wf(),
        ensures
            final(self).wf(),
            final(self).body_seq() == seq![cand] + old(self).body_seq().drop_last(),
            same_identity(*final(self), *old(self)),
    {
        let ghost pb = self.body@;
        let ghost pseq = self.body_seq();
        let h0 = self.head;
        let mut h = h0;
        cycle_back(self.body.as_slice(), &mut h);
        self.head = h;
        self.body.set(h, cand);
        proof {
            let n = pb.len() as int;
            if h0 == 0 {
                assert(self.body@.skip(n - 1) =~= seq![cand]);
                assert(self.body@.take(n - 1) =~= pb.take(n - 1));
                assert(pseq =~= pb);
                assert(self.body_seq() =~= seq![cand] + pseq.drop_last());
            } else {
                assert(self.body@.skip(h0 as int - 1) =~= seq![cand] + pb.skip(h0 as int));
                assert(self.body@.take(h0 as int - 1) =~= pb.take(h0 as int - 1));
                assert(pseq.drop_last() =~= pb.skip(h0 as int) + pb.take(h0 as int - 1));
                assert(self.body_seq() =~= seq![cand] + pseq.drop_last());
            }
        }
    }

    /// Relocates the head segment to `p`; the rest of the body stays.
    fn set_head_pt(&mut self, p: Point)
        requires
            old(self).wf(),
        ensures
            final(self).wf(),
            final(self).body_seq() == old(self).body_seq().update(0, p),
            final(self).head == old(self).head,
            same_identity(*final(self), *old(self)),
    {
        let ghost pb = self.body@;
        let ghost pseq = self.body_seq();
        let hh = self.head;
        self.body.set(hh, p);
        proof {
            let n = pb.len() as int;
            let h = hh as int;
            assert forall|k: int| 0 <= k < n implies self.body_seq()[k] == pseq.update(
                0,
                p,
            )[k] by {
                if k == 0 {
                    assert(self.body_seq()[0] == self.body@[h]);
                } else if k < n - h {
                    assert(self.body_seq()[k] == self.body@[h + k]);
                    assert(pseq[k] == pb[h + k]);
                } else {
                    assert(self.body_seq()[k] == self.body@[k - (n - h)]);
                    assert(pseq[k] == pb[k - (n - h)]);
                }
            }
            assert(self.body_seq() =~= pseq.update(0, p));
        }
    }
}

/// The first food index whose position the head occupies, `-1` when none.
pub open spec fn first_food_hit(food: Seq<Food>, head: Point) -> int
    decreases food.len(),
{
    if food.len() == 0 {
        -1
    } else {
        let b = first_food_hit(food.drop_last(), head);
        if b != -1 {
            b
        } else if food[food.len() - 1].position == head {
            food.len() - 1
        } else {
            -1
        }
    }
}

/// `first_food_hit` returns the least hit index, or `-1` exactly when no
/// food sits on the head.
pub proof fn lemma_first_food_hit(food: Seq<Food>, head: Point)
    ensures
        first_food_hit(food, head) == -1 ==> forall|i: int|
            0 <= i < food.len() ==> food[i].position != head,
        first_food_hit(food, head) != -1 ==> {
            let fi = first_food_hit(food, head);
            &&& 0 <= fi < food.len()
            &&& food[fi].position == head
            &&& forall|i: int| 0 <= i < fi ==> food[i].position != head
        },
    decreases food.len(),
{
    if food.len() > 0 {
        lemma_first_food_hit(food.drop_last(), head);
        assert(forall|i: int| 0 <= i < food.len() - 1 ==> food.drop_last()[i] == food[i]);
    }
}

/// When `i` is a hit and nothing before it is, `first_food_hit` returns `i`.
pub proof fn lemma_first_food_hit_at(food: Seq<Food>, head: Point, i: int)
    requires
        0 <= i < food.len(),
        food[i].position == head,
        forall|j: int| 0 <= j < i ==> food[j].position != head,
    ensures
        first_food_hit(food, head) == i,
    decreases food.len(),
{
    assert(forall|j: int| 0 <= j < food.len() - 1 ==> food.drop_last()[j] == food[j]);
    if i == food.len() - 1 {
        lemma_first_food_hit(food.drop_last(), head);
        if first_food_hit(food.drop_last(), head) != -1 {
            let fi = first_food_hit(food.drop_last(), head);
            assert(food[fi].position == head);
        }
    } else {
        lemma_first_food_hit_at(food.drop_last(), head, i);
    }
}

/// What eating a food item `fd` does to the eater `s`, turning it into
/// `t`: growth at the head `h`, plus the item's numeric effect.
pub open spec fn ate_food_outcome(s: Snake, t: Snake, fd: Food, h: Point, now: u64) -> bool {
    &&& t.body_seq() == s.body_seq() + Seq::new(effect_growth(fd.effect), |q: int| h)
    &&& t.speed == (if fd.effect == Effect::Speed {
        s.speed.saturating_sub(3)
    } else {
        s.speed
    })
    &&& t.cannibal_until == (if fd.effect == Effect::Cannibal {
        now.saturating_add(EFFECT_MILLIS)
    } else {
        s.cannibal_until
    })
    &&& t.dir == s.dir
    &&& t.delta == s.delta
    &&& t.alive == s.alive
    &&& t.strat == s.strat
    &&& t.color == s.color
    &&& t.name@ == s.name@
}

/// What eating another agent's tail does to the cannibal `s`, turning it
/// into `t`: one segment of growth at the head `h` and a refreshed cannibal
/// window.
pub open spec fn ate_tail_outcome(s: Snake, t: Snake, h: Point, now: u64) -> bool {
    &&& t.body_seq() == s.body_seq() + seq![h]
    &&& t.cannibal_until == now.saturating_add(EFFECT_MILLIS)
    &&& t.speed == s.speed
    &&& t.dir == s.dir
    &&& t.delta == s.delta
    &&& t.alive == s.alive
    &&& t.strat == s.strat
    &&& t.color == s.color
    &&& t.name@ == s.name@
}

/// Whether `s` can feed a cannibal whose head sits at `head`: its tail cell
/// is `head` and its body can still shed a segment.
pub open spec fn can_feed(s: Snake, head: Point) -> bool {
    s.tail_pt() == head && s.spec_len() > 3
}

/// The first index other than `idx` of an agent that can feed the cannibal,
/// `-1` when none.
pub open spec fn first_victim(snakes: Seq<Snake>, idx: int, head: Point) -> int
    decreases snakes.len(),
{
    if snakes.len() == 0 {
        -1
    } else {
        let b = first_victim(snakes.drop_last(), idx, head);
        if b != -1 {
            b
        } else if snakes.len() - 1 != idx && can_feed(snakes[snakes.len() - 1], head) {
            snakes.len() - 1
        } else {
            -1
        }
    }
}

/// `first_victim` returns the least victim index, or `-1` exactly when no
/// agent is one.
pub proof fn lemma_first_victim(snakes: Seq<Snake>, idx: int, head: Point)
    ensures
        first_victim(snakes, idx, head) == -1 ==> forall|j: int|
            0 <= j < snakes.len() && j != idx ==> !can_feed(snakes[j], head),
        first_victim(snakes, idx, head) != -1 ==> {
            let v = first_victim(snakes, idx, head);
            &&& 0 <= v < snakes.len()
            &&& v != idx
            &&& can_feed(snakes[v], head)
            &&& forall|j: int| 0 <= j < v && j != idx ==> !can_feed(snakes[j], head)
        },
    decreases snakes.len(),
{
    if snakes.len() > 0 {
        lemma_first_victim(snakes.drop_last(), idx, head);
        assert(forall|j: int|
            0 <= j < snakes.len() - 1 ==> snakes.drop_last()[j] == snakes[j]);
    }
}

/// When `j` is a victim and nothing before it is, `first_victim` returns
/// `j`.
pub proof fn lemma_first_victim_at(snakes: Seq<Snake>, idx: int, head: Point, j: int)
    requires
        0 <= j < snakes.len(),
        j != idx,
        can_feed(snakes[j], head),
        forall|i: int| 0 <= i < j && i != idx ==> !can_feed(snakes[i], head),
    ensures
        first_victim(snakes, idx, head) == j,
    decreases snakes.len(),
{
    assert(forall|i: int|
        0 <= i < snakes.len() - 1 ==> snakes.drop_last()[i] == snakes[i]);
    if j == snakes.len() - 1 {
        lemma_first_victim(snakes.drop_last(), idx, head);
        if first_victim(snakes.drop_last(), idx, head) != -1 {
            let v = first_victim(snakes.drop_last(), idx, head);
            assert(can_feed(snakes[v], head));
        }
    } else {
        lemma_first_victim_at(snakes.drop_last(), idx, head, j);
    }
}

impl Snake {
    /// The first food index whose position is `h`, if any.
    fn find_food_hit(food: &Vec<Food>, h: &Point) -> (r: Option<usize>)
        ensures
            r is Some ==> r->Some_0 == first_food_hit(food@, *h) && r->Some_0 < food@.len(),
            r is None ==> first_food_hit(food@, *h) == -1,
    {
        let mut k: usize = 0;
        while k < food.len()
            invariant
                k <= food@.len(),
                forall|j: int| 0 <= j < k ==> food@[j].position != *h,
            decreases food@.len() - k,
        {
            if food[k].position == *h {
                proof {
                    lemma_first_food_hit_at(food@, *h, k as int);
                }
                return Some(k);
            }
            k = k + 1;
        }
        proof {
            lemma_first_food_hit(food@, *h);
        }
        None
    }

    /// The first agent other than `idx` whose tail a cannibal at `h` can
    /// eat, if any.
    fn find_victim(snakes: &Vec<Snake>, idx: usize, h: &Point) -> (r: Option<usize>)
        requires
            idx < snakes@.len(),
            forall|i: int| 0 <= i < snakes@.len() ==> snakes@[i].wf(),
        ensures
            r is Some ==> r->Some_0 == first_victim(snakes@, idx as int, *h) && r->Some_0
                < snakes@.len() && r->Some_0 != idx,
            r is None ==> first_victim(snakes@, idx as int, *h) == -1,
    {
        let mut j: usize = 0;
        while j < snakes.len()
            invariant
                j <= snakes@.len(),
                idx < snakes@.len(),
                forall|i: int| 0 <= i < snakes@.len() ==> snakes@[i].wf(),
                forall|i: int|
                    0 <= i < j && i != idx ==> !can_feed(snakes@[i], *h),
            decreases snakes@.len() - j,
        {
            if j != idx {
                let tl = *snakes[j].tail();
                if tl == *h && snakes[j].len() > 3 {
                    proof {
                        lemma_first_victim_at(snakes@, idx as int, *h, j as int);
                    }
                    return Some(j);
                }
            }
            j = j + 1;
        }
        proof {
            lemma_first_victim(snakes@, idx as int, *h);
            if first_victim(snakes@, idx as int, *h) != -1 {
                let v = first_victim(snakes@, idx as int, *h);
                assert(can_feed(snakes@[v], *h));
            }
        }
        None
    }

    /// One feeding tick of agent `idx`. If its head sits on a food item, the
    /// first such item's effect applies, the eater grows at its head, and
    /// the item relocates to a fresh random cell. Otherwise, an agent in
    /// cannibal mode whose head sits on another agent's shed-able tail eats
    /// that tail: the victim sheds, the eater grows by one and its cannibal
    /// window is refreshed. At most one of the two happens per tick.
    #[verifier::rlimit(100)]
    pub fn eat(
        snakes: &mut Vec<Snake>,
        idx: usize,
        rng: &mut Rng,
        food: &mut Vec<Food>,
        arena: &Arena,
        now: u64,
    )
        requires
            idx < old(snakes)@.len(),
            forall|i: int| 0 <= i < old(snakes)@.len() ==> old(snakes)@[i].wf(),
            arena.wf(),
            old(snakes)@[idx as int].spec_len() + 2 <= usize::MAX,
        ensures
            final(snakes)@.len() == old(snakes)@.len(),
            forall|i: int| 0 <= i < final(snakes)@.len() ==> final(snakes)@[i].wf(),
            final(food)@.len() == old(food)@.len(),
            ({
                let s = old(snakes)@[idx as int];
                let h = s.head_pt();
                let fi = first_food_hit(old(food)@, h);
                fi != -1 ==> {
                    let fd = old(food)@[fi];
                    let np = random_point(old(rng).state, arena.size);
                    &&& final(food)@ == old(food)@.update(fi, (Food { position: np, ..fd }))
                    &&& np.x < arena.size.x && np.y < 2 * arena.size.y
                    &&& final(rng).state == rng_next(rng_next(old(rng).state))
                    &&& (forall|j: int|
                        0 <= j < old(snakes)@.len() && j != idx ==> final(snakes)@[j]
                            == old(snakes)@[j])
                    &&& ate_food_outcome(s, final(snakes)@[idx as int], fd, h, now)
                }
            }),
            ({
                let s = old(snakes)@[idx as int];
                let h = s.head_pt();
                let fi = first_food_hit(old(food)@, h);
                let fv = first_victim(old(snakes)@, idx as int, h);
                fi == -1 && s.cannibal_active(now) && fv != -1 ==> {
                    &&& final(food)@ == old(food)@
                    &&& final(rng).state == old(rng).state
                    &&& (forall|j: int|
                        0 <= j < old(snakes)@.len() && j != idx && j != fv ==> final(snakes)@[j]
                            == old(snakes)@[j])
                    &&& final(snakes)@[fv].body_seq() == old(snakes)@[fv].body_seq()
                        .drop_last()
                    &&& same_identity(final(snakes)@[fv], old(snakes)@[fv])
                    &&& ate_tail_outcome(s, final(snakes)@[idx as int], h, now)
                }
            }),
            ({
                let s = old(snakes)@[idx as int];
                let h = s.head_pt();
                let fi = first_food_hit(old(food)@, h);
                let fv = first_victim(old(snakes)@, idx as int, h);
                fi == -1 && !(s.cannibal_active(now) && fv != -1) ==> {
                    &&& final(snakes)@ == old(snakes)@
                    &&& final(food)@ == old(food)@
                    &&& final(rng).state == old(rng).state
                }
            }),
    {
        let h = *snakes[idx].head();
        if let Option::Some(fi) = Snake::find_food_hit(food, &h) {
            Snake::consume_food(snakes, idx, rng, food, arena, now, fi);
            return ;
        }
        if snakes[idx].is_cannibal(now) {
            if let Option::Some(fv) = Snake::find_victim(snakes, idx, &h) {
                proof {
                    lemma_first_victim(snakes@, idx as int, h);
                }
                Snake::consume_tail(snakes, idx, fv, now);
            }
        }
    }

    /// Consumes the food item at `fi`: its effect applies to agent `idx`
    /// and the item relocates to a fresh random cell.
    fn consume_food(
        snakes: &mut Vec<Snake>,
        idx: usize,
        rng: &mut Rng,
        food: &mut Vec<Food>,
        arena: &Arena,
        now: u64,
        fi: usize,
    )
        requires
            idx < old(snakes)@.len(),
            forall|i: int| 0 <= i < old(snakes)@.len() ==> old(snakes)@[i].wf(),
            arena.wf(),
            old(snakes)@[idx as int].spec_len() + 2 <= usize::MAX,
            fi < old(food)@.len(),
        ensures
            final(snakes)@.len() == old(snakes)@.len(),
            forall|i: int| 0 <= i < final(snakes)@.len() ==> final(snakes)@[i].wf(),
            ({
                let np = random_point(old(rng).state, arena.size);
                &&& final(food)@ == old(food)@.update(
                    fi as int,
                    (Food { position: np, ..old(food)@[fi as int] }),
                )
                &&& np.x < arena.size.x && np.y < 2 * arena.size.y
            }),
            final(rng).state == rng_next(rng_next(old(rng).state)),
            forall|j: int|
                0 <= j < old(snakes)@.len() && j != idx ==> final(snakes)@[j] == old(snakes)@[j],
            ate_food_outcome(
                old(snakes)@[idx as int],
                final(snakes)@[idx as int],
                old(food)@[fi as int],
                old(snakes)@[idx as int].head_pt(),
                now,
            ),
    {
        let ghost prev = old(snakes)@;
        let fd = food[fi];
        {
            let s = &mut snakes[idx];
            fd.apply_effect(s, now);
        }
        proof {
            assert(snakes@ =~= prev.update(idx as int, snakes@[idx as int]));
        }
        let p = Point::random(rng, &arena.size);
        let mut fd2 = fd;
        fd2.position = p;
        food.set(fi, fd2);
        proof {
            assert(food@ =~= old(food)@.update(fi as int, fd2));
        }
    }

    /// Eats the tail of the victim agent `fv`: the victim sheds one
    /// segment, agent `idx` grows by one at its head and its cannibal
    /// window is refreshed.
    fn consume_tail(snakes: &mut Vec<Snake>, idx: usize, fv: usize, now: u64)
        requires
            idx < old(snakes)@.len(),
            fv < old(snakes)@.len(),
            fv != idx,
            forall|i: int| 0 <= i < old(snakes)@.len() ==> old(snakes)@[i].wf(),
            old(snakes)@[fv as int].spec_len() > 3,
            old(snakes)@[idx as int].spec_len() + 2 <= usize::MAX,
        ensures
            final(snakes)@.len() == old(snakes)@.len(),
            forall|i: int| 0 <= i < final(snakes)@.len() ==> final(snakes)@[i].wf(),
            forall|j: int|
                0 <= j < old(snakes)@.len() && j != idx && j != fv ==> final(snakes)@[j]
                    == old(snakes)@[j],
            final(snakes)@[fv as int].body_seq() == old(snakes)@[fv as int].body_seq()
                .drop_last(),
            same_identity(final(snakes)@[fv as int], old(snakes)@[fv as int]),
            ate_tail_outcome(
                old(snakes)@[idx as int],
                final(snakes)@[idx as int],
                old(snakes)@[idx as int].head_pt(),
                now,
            ),
    {
        let ghost prev = old(snakes)@;
        let h = *snakes[idx].head();
        {
            let v = &mut snakes[fv];
            v.remove_tail();
        }
        proof {
            assert(snakes@ =~= prev.update(fv as int, snakes@[fv as int]));
        }
        let ghost v1 = snakes@;
        {
            let s = &mut snakes[idx];
            s.grow(1, h);
            s.cannibal_until = now.saturating_add(EFFECT_MILLIS);
        }
        proof {
            assert(snakes@ =~= v1.update(idx as int, snakes@[idx as int]));
            assert(snakes@[idx as int].body_seq() =~= prev[idx as int].body_seq() + seq![h]);
        }
    }
}

/// Whether some food of kind `e` exists.
pub open spec fn has_food(food: Seq<Food>, e: Effect) -> bool {
    exists|i: int| 0 <= i < food.len() && food[i].effect == e
}

/// Whether `other` is worth hunting for the cannibal `me`: noticeably
/// slower (its stored delay larger by more than 4) and still above the
/// minimum length.
pub open spec fn hunt_prospect(me: Snake, other: Snake) -> bool {
    me.speed + 4 < other.speed && other.spec_len() > 3
}

/// The hunting prospect (other than `idx`) whose tail is nearest to `me`'s
/// own tail by Manhattan distance, earliest on ties; `-1` when none.
pub open spec fn best_hunt_idx(snakes: Seq<Snake>, idx: int, me: Snake) -> int
    decreases snakes.len(),
{
    if snakes.len() == 0 {
        -1
    } else {
        let b = best_hunt_idx(snakes.drop_last(), idx, me);
        let last = snakes.len() - 1;
        if last != idx && hunt_prospect(me, snakes[last]) && (b == -1 || quick_dist(
            me.tail_pt(),
            snakes[last].tail_pt(),
        ) < quick_dist(me.tail_pt(), snakes[b].tail_pt())) {
            last
        } else {
            b
        }
    }
}

/// Whether `other` is an easy kill for `me`: its stored delay larger by
/// more than 10.
pub open spec fn kill_prospect(me: Snake, other: Snake) -> bool {
    me.speed + 10 < other.speed
}

/// The longest kill prospect other than `idx`, latest on ties; `-1` when
/// none.
pub open spec fn best_kill_idx(snakes: Seq<Snake>, idx: int, me: Snake) -> int
    decreases snakes.len(),
{
    if snakes.len() == 0 {
        -1
    } else {
        let b = best_kill_idx(snakes.drop_last(), idx, me);
        let last = snakes.len() - 1;
        if last != idx && kill_prospect(me, snakes[last]) && (b == -1 || snakes[last].spec_len()
            >= snakes[b].spec_len()) {
            last
        } else {
            b
        }
    }
}

/// The food item nearest to `head` of any kind, by Manhattan distance,
/// earliest on ties; `-1` only when there is no food at all.
pub open spec fn best_any_food_idx(food: Seq<Food>, head: Point) -> int
    decreases food.len(),
{
    if food.len() == 0 {
        -1
    } else {
        let b = best_any_food_idx(food.drop_last(), head);
        let last = food.len() - 1;
        if b == -1 || quick_dist(head, food[last].position) < quick_dist(
            head,
            food[b].position,
        ) {
            last
        } else {
            b
        }
    }
}

/// The point that autonomous targeting selects for agent `idx`: an
/// opportunistic hunt target while in cannibal mode, else the
/// strategy-specific target.
pub open spec fn find_target_spec(snakes: Seq<Snake>, idx: int, food: Seq<Food>, now: u64) -> Point {
    let me = snakes[idx];
    let hunt = if me.cannibal_active(now) {
        best_hunt_idx(snakes, idx, me)
    } else {
        -1
    };
    if hunt != -1 {
        snakes[hunt].tail_pt()
    } else if me.strat == Strategy::Speed {
        food[best_food_idx(food, me.head_pt(), Effect::Speed)].position
    } else if me.strat == Strategy::Score {
        food[best_food_idx(food, me.head_pt(), Effect::Nourish)].position
    } else if me.strat == Strategy::Eat {
        food[best_any_food_idx(food, me.head_pt())].position
    } else if me.strat == Strategy::Kill {
        let bk = best_kill_idx(snakes, idx, me);
        if bk != -1 {
            snakes[bk].head_pt()
        } else {
            food[best_food_idx(food, me.head_pt(), Effect::Speed)].position
        }
    } else if me.strat == Strategy::Cannibal {
        food[best_food_idx(
            food,
            me.head_pt(),
            if me.cannibal_active(now) {
                Effect::Speed
            } else {
                Effect::Cannibal
            },
        )].position
    } else {
        me.head_pt()
    }
}

impl Snake {
    /// The index that `best_hunt_idx` selects, if any.
    fn hunt_idx(snakes: &Vec<Snake>, idx: usize, now: u64) -> (r: Option<usize>)
        requires
            idx < snakes@.len(),
            forall|i: int| 0 <= i < snakes@.len() ==> snakes@[i].wf(),
        ensures
            r is Some ==> r->Some_0 < snakes@.len() && r->Some_0 == best_hunt_idx(
                snakes@,
                idx as int,
                snakes@[idx as int],
            ),
            r is None ==> best_hunt_idx(snakes@, idx as int, snakes@[idx as int]) == -1,
    {
        let ghost me = snakes@[idx as int];
        let my_tail = *snakes[idx].tail();
        let my_speed = snakes[idx].speed;
        let mut found = false;
        let mut best: usize = 0;
        let mut k: usize = 0;
        while k < snakes.len()
            invariant
                k <= snakes@.len(),
                idx < snakes@.len(),
                forall|i: int| 0 <= i < snakes@.len() ==> snakes@[i].wf(),
                me == snakes@[idx as int],
                my_tail == me.tail_pt(),
                my_speed == me.speed,
                !found ==> best_hunt_idx(snakes@.take(k as int), idx as int, me) == -1,
                found ==> best < k && best == best_hunt_idx(
                    snakes@.take(k as int),
                    idx as int,
                    me,
                ),
            decreases snakes@.len() - k,
        {
            proof {
                assert(snakes@.take(k as int + 1).drop_last() =~= snakes@.take(k as int));
                assert(snakes@.take(k as int + 1)[k as int] == snakes@[k as int]);
            }
            if k != idx && (my_speed as u16) + 4 < snakes[k].speed as u16 && snakes[k].len()
                > 3 {
                let tl = *snakes[k].tail();
                if !found {
                    found = true;
                    best = k;
                } else {
                    let cur = my_tail.quick_distance(&tl);
                    let so_far = {
                        let bt = *snakes[best].tail();
                        my_tail.quick_distance(&bt)
                    };
                    if cur < so_far {
                        best = k;
                    }
                }
            }
            k = k + 1;
        }
        proof {
            assert(snakes@.take(snakes@.len() as int) =~= snakes@);
        }
        if found {
            Some(best)
        } else {
            None
        }
    }

    /// The index that `best_kill_idx` selects, if any.
    fn kill_idx(snakes: &Vec<Snake>, idx: usize) -> (r: Option<usize>)
        requires
            idx < snakes@.len(),
            forall|i: int| 0 <= i < snakes@.len() ==> snakes@[i].wf(),
        ensures
            r is Some ==> r->Some_0 < snakes@.len() && r->Some_0 == best_kill_idx(
                snakes@,
                idx as int,
                snakes@[idx as int],
            ),
            r is None ==> best_kill_idx(snakes@, idx as int, snakes@[idx as int]) == -1,
    {
        let ghost me = snakes@[idx as int];
        let my_speed = snakes[idx].speed;
        let mut found = false;
        let mut best: usize = 0;
        let mut k: usize = 0;
        while k < snakes.len()
            invariant
                k <= snakes@.len(),
                idx < snakes@.len(),
                forall|i: int| 0 <= i < snakes@.len() ==> snakes@[i].wf(),
                me == snakes@[idx as int],
                my_speed == me.speed,
                !found ==> best_kill_idx(snakes@.take(k as int), idx as int, me) == -1,
                found ==> best < k && best == best_kill_idx(
                    snakes@.take(k as int),
                    idx as int,
                    me,
                ),
            decreases snakes@.len() - k,
        {
            proof {
                assert(snakes@.take(k as int + 1).drop_last() =~= snakes@.take(k as int));
                assert(snakes@.take(k as int + 1)[k as int] == snakes@[k as int]);
            }
            if k != idx && (my_speed as u16) + 10 < snakes[k].speed as u16 {
                if !found || snakes[k].len() >= snakes[best].len() {
                    found = true;
                    best = k;
                }
            }
            k = k + 1;
        }
        proof {
            assert(snakes@.take(snakes@.len() as int) =~= snakes@);
        }
        if found {
            Some(best)
        } else {
            None
        }
    }

    /// The position of the food item nearest to `head`, of any kind.
    fn nearest_any_food(food: &Vec<Food>, head: &Point) -> (r: Point)
        requires
            food@.len() >= 1,
        ensures
            best_any_food_idx(food@, *head) >= 0,
            r == food@[best_any_food_idx(food@, *head)].position,
    {
        let mut best: usize = 0;
        let mut k: usize = 1;
        proof {
            assert(food@.take(1).drop_last() =~= food@.take(0));
            assert(food@.take(1)[0] == food@[0]);
            assert(food@.take(0).len() == 0);
            assert(best_any_food_idx(food@.take(0), *head) == -1);
            assert(best_any_food_idx(food@.take(1), *head) == 0);
        }
        while k < food.len()
            invariant
                1 <= k <= food@.len(),
                food@.len() >= 1,
                best < k,
                best == best_any_food_idx(food@.take(k as int), *head),
            decreases food@.len() - k,
        {
            proof {
                assert(food@.take(k as int + 1).drop_last() =~= food@.take(k as int));
                assert(food@.take(k as int + 1)[k as int] == food@[k as int]);
            }
            let cur = head.quick_distance(&food[k].position);
            let so_far = head.quick_distance(&food[best].position);
            if cur < so_far {
                best = k;
            }
            k = k + 1;
        }
        proof {
            assert(food@.take(food@.len() as int) =~= food@);
        }
        food[best].position
    }

    /// The autonomous targeting decision for agent `idx`: in cannibal mode
    /// the nearest suitable rival tail overrides everything; otherwise the
    /// strategy picks its kind of food, the nearest food of any kind, or
    /// the longest noticeably slower rival's head.
    pub fn find_target(snakes: &Vec<Snake>, idx: usize, food: &Vec<Food>, now: u64) -> (r:
        Point)
        requires
            idx < snakes@.len(),
            forall|i: int| 0 <= i < snakes@.len() ==> snakes@[i].wf(),
            snakes@[idx as int].strat != Strategy::Player,
            ({
                let me = snakes@[idx as int];
                let hunt = if me.cannibal_active(now) {
                    best_hunt_idx(snakes@, idx as int, me)
                } else {
                    -1
                };
                hunt == -1 ==> {
                    &&& me.strat == Strategy::Speed ==> has_food(food@, Effect::Speed)
                    &&& me.strat == Strategy::Score ==> has_food(food@, Effect::Nourish)
                    &&& me.strat == Strategy::Eat ==> food@.len() >= 1
                    &&& (me.strat == Strategy::Kill && best_kill_idx(snakes@, idx as int, me)
                        == -1) ==> has_food(food@, Effect::Speed)
                    &&& me.strat == Strategy::Cannibal ==> has_food(
                        food@,
                        if me.cannibal_active(now) {
                            Effect::Speed
                        } else {
                            Effect::Cannibal
                        },
                    )
                }
            }),
        ensures
            r == find_target_spec(snakes@, idx as int, food@, now),
    {
        if snakes[idx].is_cannibal(now) {
            if let Option::Some(hi) = Snake::hunt_idx(snakes, idx, now) {
                return *snakes[hi].tail();
            }
        }
        let head = *snakes[idx].head();
        match snakes[idx].strat {
            Strategy::Player => {
                proof {
                    assert(false);
                }
                head
            },
            Strategy::Speed => locate_food(food, &head, Effect::Speed),
            Strategy::Score => locate_food(food, &head, Effect::Nourish),
            Strategy::Eat => Snake::nearest_any_food(food, &head),
            Strategy::Kill => {
                if let Option::Some(ki) = Snake::kill_idx(snakes, idx) {
                    *snakes[ki].head()
                } else {
                    locate_food(food, &head, Effect::Speed)
                }
            },
            Strategy::Cannibal => {
                let e = if snakes[idx].is_cannibal(now) {
                    Effect::Speed
                } else {
                    Effect::Cannibal
                };
                locate_food(food, &head, e)
            },
        }
    }
}

/// The direction that steering settles on: the first of the candidate
/// directions, from `k` on, that is neither an immediate reversal nor a
/// hypothetical one-step crash; when none survives, the current heading.
pub open spec fn seek_choice(
    snakes: Seq<Snake>,
    idx: int,
    cands: Seq<Direction>,
    k: int,
    now: u64,
) -> Direction
    decreases cands.len() - k,
{
    if k < 0 || k >= cands.len() {
        snakes[idx].dir
    } else {
        let d = cands[k];
        if d == snakes[idx].dir.inverse_spec() {
            seek_choice(snakes, idx, cands, k + 1, now)
        } else if crash_at(
            snakes,
            idx,
            snakes[idx].head_pt().shifted_spec(d.coords_spec()),
            now,
        ) {
            seek_choice(snakes, idx, cands, k + 1, now)
        } else {
            d
        }
    }
}

impl Snake {
    /// Steers agent `idx` toward `target`: of the four candidate directions
    /// in heuristic preference order, the first that is neither an
    /// immediate reversal nor a hypothetical one-step crash is committed;
    /// when all four are unsafe the current heading stays.
    pub fn seek(snakes: &mut Vec<Snake>, idx: usize, target: &Point, bounds: &Point, now: u64)
        requires
            idx < old(snakes)@.len(),
            forall|i: int| 0 <= i < old(snakes)@.len() ==> old(snakes)@[i].wf(),
        ensures
            final(snakes)@.len() == old(snakes)@.len(),
            forall|j: int|
                0 <= j < old(snakes)@.len() && j != idx ==> final(snakes)@[j] == old(snakes)@[j],
            final(snakes)@[idx as int] == (Snake {
                dir: seek_choice(
                    old(snakes)@,
                    idx as int,
                    old(snakes)@[idx as int].head_pt().nearest_directions_spec(
                        *target,
                        *bounds,
                    ),
                    0,
                    now,
                ),
                ..old(snakes)@[idx as int]
            }),
    {
        let head = *snakes[idx].head();
        let cands = head.nearest_directions(target, bounds);
        let my_inv = snakes[idx].dir.inverse();
        let mut chosen = snakes[idx].dir;
        let mut found = false;
        let mut k: usize = 0;
        while (k < 4 && !found)
            invariant
                k <= 4,
                cands@.len() == 4,
                idx < snakes@.len(),
                snakes@ == old(snakes)@,
                forall|i: int| 0 <= i < snakes@.len() ==> snakes@[i].wf(),
                head == snakes@[idx as int].head_pt(),
                my_inv == snakes@[idx as int].dir.inverse_spec(),
                cands@ == snakes@[idx as int].head_pt().nearest_directions_spec(
                    *target,
                    *bounds,
                ),
                !found ==> chosen == snakes@[idx as int].dir,
                !found ==> seek_choice(snakes@, idx as int, cands@, 0, now) == seek_choice(
                    snakes@,
                    idx as int,
                    cands@,
                    k as int,
                    now,
                ),
                found ==> chosen == seek_choice(snakes@, idx as int, cands@, 0, now),
            decreases 4 - k,
        {
            let d = cands[k];
            if d != my_inv {
                let next = head.shifted(d.coords());
                let mut no_killer: Option<usize> = None;
                let crashes = Snake::is_crash(snakes, idx, &next, &mut no_killer, now);
                if !crashes {
                    chosen = d;
                    found = true;
                }
            }
            k = k + 1;
        }
        let s = &mut snakes[idx];
        s.dir = chosen;
        proof {
            assert(final(snakes)@ =~= old(snakes)@.update(
                idx as int,
                final(snakes)@[idx as int],
            ));
        }
    }
}

/// The half-block glyph of the upper or lower half of a physical cell.
pub open spec fn glyph_seq(is_top: bool) -> Seq<char> {
    if is_top {
        seq!['▀']
    } else {
        seq!['▄']
    }
}

/// The first index in the pending set `v` whose point is `p`, `-1` when
/// none.
pub open spec fn find_pending(v: Seq<ColoredPoint>, p: Point) -> int
    decreases v.len(),
{
    if v.len() == 0 {
        -1
    } else {
        let b = find_pending(v.drop_last(), p);
        if b != -1 {
            b
        } else if v[v.len() - 1].point == p {
            v.len() - 1
        } else {
            -1
        }
    }
}

/// `find_pending` returns the least match, or `-1` exactly when none.
pub proof fn lemma_find_pending(v: Seq<ColoredPoint>, p: Point)
    ensures
        find_pending(v, p) == -1 ==> forall|i: int| 0 <= i < v.len() ==> v[i].point != p,
        find_pending(v, p) != -1 ==> {
            let fi = find_pending(v, p);
            &&& 0 <= fi < v.len()
            &&& v[fi].point == p
            &&& forall|i: int| 0 <= i < fi ==> v[i].point != p
        },
    decreases v.len(),
{
    if v.len() > 0 {
        lemma_find_pending(v.drop_last(), p);
        assert(forall|i: int| 0 <= i < v.len() - 1 ==> v.drop_last()[i] == v[i]);
    }
}

/// When `i` is a match and nothing before it is, `find_pending` returns
/// `i`.
pub proof fn lemma_find_pending_at(v: Seq<ColoredPoint>, p: Point, i: int)
    requires
        0 <= i < v.len(),
        v[i].point == p,
        forall|j: int| 0 <= j < i ==> v[j].point != p,
    ensures
        find_pending(v, p) == i,
    decreases v.len(),
{
    assert(forall|j: int| 0 <= j < v.len() - 1 ==> v.drop_last()[j] == v[j]);
    if i == v.len() - 1 {
        lemma_find_pending(v.drop_last(), p);
        if find_pending(v.drop_last(), p) != -1 {
            let fi = find_pending(v.drop_last(), p);
            assert(v[fi].point == p);
        }
    } else {
        lemma_find_pending_at(v.drop_last(), p, i);
    }
}

/// One compositor step for a body cell `p` drawn in `fgc` on the agent
/// color `color`: when the complementary half of `p`'s physical cell is
/// pending, it is consumed and its color becomes the background; otherwise
/// this half's color is recorded, keyed by the other half's coordinate.
/// Yields the two pending sets after the step and the emitted characters.
pub open spec fn comp_step(
    p: Point,
    color: u8,
    fgc: u8,
    pos: Point,
    top: Seq<ColoredPoint>,
    bottom: Seq<ColoredPoint>,
) -> (Seq<ColoredPoint>, Seq<ColoredPoint>, Seq<char>) {
    let is_top = p.y % 2 == 0;
    let v = if is_top {
        top
    } else {
        bottom
    };
    let fi = find_pending(v, p);
    if fi != -1 {
        let partner = v[fi];
        let v2 = v.update(fi, v.last()).drop_last();
        let out = bg_seq(partner.color) + fg_seq(fgc) + mv_seq(p.offset_spec(pos))
            + glyph_seq(is_top) + reset_seq();
        if is_top {
            (v2, bottom, out)
        } else {
            (top, v2, out)
        }
    } else {
        let rec = ColoredPoint {
            point: Point {
                x: p.x,
                y: if is_top {
                    (p.y + 1) as u8
                } else {
                    (p.y - 1) as u8
                },
            },
            color,
        };
        let out = fg_seq(fgc) + mv_seq(p.offset_spec(pos)) + glyph_seq(is_top) + reset_seq();
        if is_top {
            (top, bottom.push(rec), out)
        } else {
            (top.push(rec), bottom, out)
        }
    }
}

/// The compositor folded over the first `n` body cells in buffer order; the
/// head cell of a cannibal is drawn in the warning color 196.
pub open spec fn render_fold(
    body: Seq<Point>,
    head_idx: int,
    color: u8,
    cannibal: bool,
    pos: Point,
    top: Seq<ColoredPoint>,
    bottom: Seq<ColoredPoint>,
    n: int,
) -> (Seq<ColoredPoint>, Seq<ColoredPoint>, Seq<char>)
    decreases n,
{
    if n <= 0 {
        (top, bottom, Seq::<char>::empty())
    } else {
        let r1 = render_fold(body, head_idx, color, cannibal, pos, top, bottom, n - 1);
        let fgc = if cannibal && n - 1 == head_idx {
            196u8
        } else {
            color
        };
        let r2 = comp_step(body[n - 1], color, fgc, pos, r1.0, r1.1);
        (r2.0, r2.1, r1.2 + r2.2)
    }
}

impl Snake {
    /// The first pending entry at point `p`, if any.
    fn find_cp(v: &Vec<ColoredPoint>, p: &Point) -> (r: Option<usize>)
        ensures
            r is Some ==> r->Some_0 == find_pending(v@, *p) && r->Some_0 < v@.len(),
            r is None ==> find_pending(v@, *p) == -1,
    {
        let mut k: usize = 0;
        while k < v.len()
            invariant
                k <= v@.len(),
                forall|j: int| 0 <= j < k ==> v@[j].point != *p,
            decreases v@.len() - k,
        {
            if v[k].point == *p {
                proof {
                    lemma_find_pending_at(v@, *p, k as int);
                }
                return Some(k);
            }
            k = k + 1;
        }
        proof {
            lemma_find_pending(v@, *p);
        }
        None
    }

    /// Draws this agent's body into the frame through the half-cell
    /// compositor. Each cell is the upper or lower half of a physical
    /// terminal cell; when the opposite half was already drawn this frame
    /// its pending entry is consumed and recolors the background, so two
    /// agents can share one terminal cell. A cannibal's head cell is drawn
    /// in the warning color.
    #[verifier::rlimit(100)]
    pub fn render(
        &self,
        f: &mut String,
        arena: &Arena,
        top: &mut Vec<ColoredPoint>,
        bottom: &mut Vec<ColoredPoint>,
        now: u64,
    )
        requires
            self.wf(),
            forall|i: int|
                0 <= i < self.body@.len() ==> (self.body@[i].x + arena.position.x + 1
                    <= u8::MAX && self.body@[i].y + 2 <= u8::MAX && (self.body@[i].y + 2) / 2
                    + arena.position.y <= u8::MAX),
        ensures
            ({
                let r = render_fold(
                    self.body@,
                    self.head as int,
                    self.color,
                    self.cannibal_active(now),
                    arena.position,
                    old(top)@,
                    old(bottom)@,
                    self.body@.len() as int,
                );
                &&& final(top)@ == r.0
                &&& final(bottom)@ == r.1
                &&& final(f)@ == old(f)@ + r.2 + reset_seq()
            }),
    {
        let cannibal = self.is_cannibal(now);
        let mut i: usize = 0;
        while i < self.body.len()
            invariant
                i <= self.body@.len(),
                self.wf(),
                forall|q: int|
                    0 <= q < self.body@.len() ==> (self.body@[q].x + arena.position.x + 1
                        <= u8::MAX && self.body@[q].y + 2 <= u8::MAX && (self.body@[q].y + 2)
                        / 2 + arena.position.y <= u8::MAX),
                cannibal == self.cannibal_active(now),
                ({
                    let r = render_fold(
                        self.body@,
                        self.head as int,
                        self.color,
                        cannibal,
                        arena.position,
                        old(top)@,
                        old(bottom)@,
                        i as int,
                    );
                    &&& top@ == r.0
                    &&& bottom@ == r.1
                    &&& f@ == old(f)@ + r.2
                }),
            decreases self.body@.len() - i,
        {
            let ghost r_pre = render_fold(
                self.body@,
                self.head as int,
                self.color,
                cannibal,
                arena.position,
                old(top)@,
                old(bottom)@,
                i as int,
            );
            let p = self.body[i];
            let is_top = p.y % 2 == 0;
            let found_idx = if is_top {
                Snake::find_cp(top, &p)
            } else {
                Snake::find_cp(bottom, &p)
            };
            match found_idx {
                Option::Some(fi) => {
                    let h = if is_top {
                        top.swap_remove(fi)
                    } else {
                        bottom.swap_remove(fi)
                    };
                    bg(f, h.color);
                },
                Option::None => {
                    let mut hp = ColoredPoint { point: p, color: self.color };
                    if is_top {
                        hp.point.y = p.y + 1;
                        bottom.push(hp);
                    } else {
                        hp.point.y = p.y - 1;
                        top.push(hp);
                    }
                },
            }
            if cannibal && i == self.head {
                fg(f, 196);
            } else {
                fg(f, self.color);
            }
            let glyph = if is_top {
                "▀"
            } else {
                "▄"
            };
            p.offset(&arena.position).render(glyph, f);
            reset(f);
            proof {
                reveal_strlit("▀");
                reveal_strlit("▄");
                assert(glyph@ =~= glyph_seq(is_top));
                let r_post = render_fold(
                    self.body@,
                    self.head as int,
                    self.color,
                    cannibal,
                    arena.position,
                    old(top)@,
                    old(bottom)@,
                    i as int + 1,
                );
                let fgc: u8 = if cannibal && i == self.head {
                    196
                } else {
                    self.color
                };
                let st = comp_step(p, self.color, fgc, arena.position, r_pre.0, r_pre.1);
                assert(top@ =~= st.0);
                assert(bottom@ =~= st.1);
                assert(f@ =~= old(f)@ + r_post.2);
            }
            i = i + 1;
        }
        reset(f);
        proof {
            assert(final(f)@ =~= old(f)@ + render_fold(
                self.body@,
                self.head as int,
                self.color,
                self.cannibal_active(now),
                arena.position,
                old(top)@,
                old(bottom)@,
                self.body@.len() as int,
            ).2 + reset_seq());
        }
    }
}

/// Merging the two halves of one physical cell is order-independent in the
/// colors it produces: drawing agent A's upper half then agent B's lower
/// half yields the lower glyph in B's color over A's as background, and the
/// reverse order yields the upper glyph in A's color over B's — the same
/// unordered pair of colors either way, with both pending sets drained.
pub proof fn lemma_compositor_symmetry(pt: Point, ca: u8, cb: u8, pos: Point)
    requires
        pt.y % 2 == 0,
    ensures
        ({
            let pb = Point { x: pt.x, y: (pt.y + 1) as u8 };
            let e = Seq::<ColoredPoint>::empty();
            let a1 = comp_step(pt, ca, ca, pos, e, e);
            let a2 = comp_step(pb, cb, cb, pos, a1.0, a1.1);
            let b1 = comp_step(pb, cb, cb, pos, e, e);
            let b2 = comp_step(pt, ca, ca, pos, b1.0, b1.1);
            &&& a2.0.len() == 0 && a2.1.len() == 0
            &&& b2.0.len() == 0 && b2.1.len() == 0
            &&& a2.2 == bg_seq(ca) + fg_seq(cb) + mv_seq(pb.offset_spec(pos)) + glyph_seq(
                false,
            ) + reset_seq()
            &&& b2.2 == bg_seq(cb) + fg_seq(ca) + mv_seq(pt.offset_spec(pos)) + glyph_seq(
                true,
            ) + reset_seq()
            &&& set![ca, cb] =~= set![cb, ca]
        }),
{
    let pb = Point { x: pt.x, y: (pt.y + 1) as u8 };
    let e = Seq::<ColoredPoint>::empty();
    let a1 = comp_step(pt, ca, ca, pos, e, e);
    assert(find_pending(e, pt) == -1);
    assert(a1.1 =~= e.push(ColoredPoint { point: pb, color: ca }));
    let a2 = comp_step(pb, cb, cb, pos, a1.0, a1.1);
    assert(pb.y % 2 == 1) by {
        assert(pt.y % 2 == 0 && pb.y == pt.y + 1);
    }
    lemma_find_pending_at(a1.1, pb, 0);
    assert(find_pending(a1.1, pb) == 0);
    assert(a2.1 =~= e);
    let b1 = comp_step(pb, cb, cb, pos, e, e);
    assert(find_pending(e, pb) == -1);
    assert(b1.0 =~= e.push(ColoredPoint { point: pt, color: cb }));
    let b2 = comp_step(pt, ca, ca, pos, b1.0, b1.1);
    lemma_find_pending_at(b1.0, pt, 0);
    assert(find_pending(b1.0, pt) == 0);
    assert(b2.0 =~= e);
}

/// An agent in cannibal mode may enter a cell/// An agent in cannibal mode may enter a cell that only some other agent's
/// tail occupies: that configuration is no crash. The same configuration
/// with the mover out of cannibal mode is one.
pub proof fn lemma_cannibal_tail_exemption(snakes: Seq<Snake>, idx: int, p: Point, now: u64)
    requires
        0 <= idx < snakes.len(),
        forall|i: int| 0 <= i < snakes.len() ==> snakes[i].wf(),
        exists|j: int| 0 <= j < snakes.len() && j != idx && snakes[j].tail_pt() == p,
        forall|i: int, k: int|
            0 <= i < snakes.len() && 0 <= k < snakes[i].body_seq().len() - 1
                ==> snakes[i].body_seq()[k] != p,
    ensures
        snakes[idx].cannibal_active(now) ==> !crash_at(snakes, idx, p, now),
        !snakes[idx].cannibal_active(now) ==> crash_at(snakes, idx, p, now),
{
    if snakes[idx].cannibal_active(now) {
        if crash_at(snakes, idx, p, now) {
            let i = choose|i: int|
                0 <= i < snakes.len() && hits_body(snakes[i], p, true);
            let k = choose|k: int|
                0 <= k < snakes[i].body_seq().len() && snakes[i].body_seq()[k] == p && !(true
                    && k == snakes[i].body_seq().len() - 1);
            assert(snakes[i].body_seq()[k] != p);
            assert(false);
        }
    } else {
        let j = choose|j: int|
            0 <= j < snakes.len() && j != idx && snakes[j].tail_pt() == p;
        let n = snakes[j].body_seq().len() as int;
        assert(snakes[j].body_seq()[n - 1] == p);
        assert(hits_body(snakes[j], p, false));
    }
}

/// The logical body has exactly as many segments as the buffer.
pub proof fn lemma_body_seq_len(s: Snake)
    requires
        s.wf(),
    ensures
        s.body_seq().len() == s.spec_len(),
{
}

/// The raw buffer cell at the tail index is the logical tail.
pub proof fn lemma_tail_raw(s: Snake)
    requires
        s.wf(),
    ensures
        s.tail_pt() == s.body@[s.spec_tail_idx()],
{
    let n = s.body@.len() as int;
    let h = s.head as int;
    if h == 0 {
        assert(s.body_seq() =~= s.body@);
    } else {
        assert(s.body_seq()[n - 1] == s.body@.take(h)[n - 1 - (n - h)]);
    }
}

} // verus!
