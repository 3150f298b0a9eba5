//! The arena and the food registry: a bounded rectangular region that
//! re-clamps itself against the host viewport, and a small set of food items
//! that relocate when consumed.

use vstd::prelude::*;
use crate::esc::{fg, fg_seq, fwd, fwd_seq, mv, mv_seq, reset, reset_seq};
use crate::math::{quick_dist, Point, Rng};
use crate::snake::{ate_food_outcome, Snake};

verus! {

/// `a - b`, floored at zero.
pub open spec fn sat_sub(a: int, b: int) -> int {
    if a >= b {
        a - b
    } else {
        0
    }
}

/// The greater of `a` and `b`.
pub open spec fn maxi(a: int, b: int) -> int {
    if a >= b {
        a
    } else {
        b
    }
}

/// The smaller of `a` and `b`.
pub open spec fn mini(a: int, b: int) -> int {
    if a <= b {
        a
    } else {
        b
    }
}

/// The rectangular playing field: `position` is its viewport offset in
/// physical terminal cells, `size` its interior extent, `size.x` columns wide
/// and `size.y` physical rows high; logical `y` coordinates run doubled, in
/// `[0, 2 * size.y)`.
pub struct Arena {
    pub position: Point,
    pub size: Point,
}

/// `n` copies of the horizontal border glyph.
pub open spec fn hbar(n: nat) -> Seq<char>
    decreases n,
{
    if n == 0 {
        Seq::<char>::empty()
    } else {
        hbar((n - 1) as nat).push('═')
    }
}

/// The top border line: a cursor move to the corner, then the top edge.
pub open spec fn border_top(pos: Point, sx: u8) -> Seq<char> {
    mv_seq(pos) + seq!['╔'] + hbar(sx as nat) + seq!['╗', '\n']
}

/// One interior border line: both side walls, skipping the interior.
pub open spec fn border_row(px: u8, sx: u8) -> Seq<char> {
    fwd_seq(px.saturating_sub(1)) + seq!['║'] + fwd_seq(sx) + seq!['║', '\n']
}

/// `n` interior border lines.
pub open spec fn border_rows(n: nat, px: u8, sx: u8) -> Seq<char>
    decreases n,
{
    if n == 0 {
        Seq::<char>::empty()
    } else {
        border_rows((n - 1) as nat, px, sx) + border_row(px, sx)
    }
}

/// The bottom border line.
pub open spec fn border_bottom(px: u8, sx: u8) -> Seq<char> {
    fwd_seq(px.saturating_sub(1)) + seq!['╚'] + hbar(sx as nat) + seq!['╝', '\n']
}

/// The whole box-drawing border of an arena anchored at `pos` with interior
/// size `size`.
pub open spec fn border_seq(pos: Point, size: Point) -> Seq<char> {
    border_top(pos, size.x) + border_rows(size.y as nat, pos.x, size.x) + border_bottom(
        pos.x,
        size.x,
    )
}

/// The food item `fd` after the arena interior shrank: each clamped axis is
/// pulled back inside by its excess.
pub open spec fn food_fitted(fd: Food, shrunk_x: bool, sx: int, shrunk_y: bool, sy: int) -> Food {
    Food {
        position: Point {
            x: if shrunk_x {
                mini(fd.position.x as int, sx - 2) as u8
            } else {
                fd.position.x
            },
            y: if shrunk_y {
                mini(fd.position.y as int, (sy - 1) * 2) as u8
            } else {
                fd.position.y
            },
        },
        ..fd
    }
}

impl Arena {
    /// The sizes under which every movement step stays well defined: a
    /// nonempty interior whose doubled height still fits a `u8`.
    pub open spec fn wf(self) -> bool {
        1 <= self.size.x && 1 <= self.size.y <= 127
    }

    pub fn new(x: u8, y: u8, w: u8, h: u8) -> (r: Arena)
        ensures
            r.position == (Point { x, y }),
            r.size == (Point { x: w, y: h }),
    {
        Arena { position: Point::new(x, y), size: Point::new(w, h) }
    }

    /// Re-fits the arena against the viewport `termsize`, then appends its
    /// border to the frame. If the arena overflows the viewport on an axis it
    /// first slides toward the origin by the overflow; whatever sliding
    /// cannot absorb shrinks the interior (with a floor of 8 cells), pulling
    /// any food that fell outside back in. The position is floored at the
    /// margin (2 columns, 3 rows) that the status lines occupy.
    #[verifier::rlimit(80)]
    pub fn render(&mut self, f: &mut String, termsize: &Point, food: &mut Vec<Food>)
        requires
            old(self).position.x + old(self).size.x + 16 <= u8::MAX,
            old(self).position.y + old(self).size.y + 2 <= u8::MAX,
            old(self).size.y <= 128,
        ensures
            ({
                let px = old(self).position.x as int;
                let py = old(self).position.y as int;
                let sx = old(self).size.x as int;
                let sy = old(self).size.y as int;
                let diff_x = sat_sub(px + sx + 16, termsize.x as int);
                let sub_x = sat_sub(diff_x, sat_sub(px, 2));
                let sx1 = if sub_x != 0 {
                    maxi(8, sat_sub(sx, sub_x))
                } else {
                    sx
                };
                let diff_y = sat_sub(py + sy + 2, termsize.y as int);
                let sub_y = sat_sub(diff_y, sat_sub(py, 3));
                let sy1 = if sub_y != 0 {
                    maxi(8, sat_sub(sy, sub_y))
                } else {
                    sy
                };
                &&& final(self).position.x == maxi(sat_sub(px, diff_x), 2)
                &&& final(self).position.y == maxi(sat_sub(py, diff_y), 3)
                &&& final(self).size.x == sx1
                &&& final(self).size.y == sy1
                &&& final(food)@.len() == old(food)@.len()
                &&& forall|i: int|
                    0 <= i < old(food)@.len() ==> final(food)@[i] == food_fitted(
                        old(food)@[i],
                        sub_x != 0,
                        sx1,
                        sub_y != 0,
                        sy1,
                    )
                &&& final(f)@ == old(f)@ + border_seq(final(self).position, final(self).size)
            }),
    {
        if self.position.x + self.size.x + 16 > termsize.x {
            let diff = (self.position.x + self.size.x + 16) - termsize.x;
            let sub = diff.saturating_sub(self.position.x.saturating_sub(2));
            self.position.x = self.position.x.saturating_sub(diff);
            if sub != 0 {
                self.shrink_width(sub, food);
            }
        }
        if self.position.y + self.size.y + 2 > termsize.y {
            let diff = (self.position.y + self.size.y + 2) - termsize.y;
            let sub = diff.saturating_sub(self.position.y.saturating_sub(3));
            self.position.y = self.position.y.saturating_sub(diff);
            if sub != 0 {
                self.shrink_height(sub, food);
            }
        }
        if self.position.x < 2 {
            self.position.x = 2;
        }
        if self.position.y < 3 {
            self.position.y = 3;
        }
        self.draw_border(f);
    }

    /// Appends the box-drawing border anchored at `position` with interior
    /// size `size` to the frame.
    fn draw_border(&self, f: &mut String)
        ensures
            final(f)@ == old(f)@ + border_seq(self.position, self.size),
    {
        let ghost base = f@;
        mv(f, &self.position);
        f.append("╔");
        proof {
            reveal_strlit("╔");
        }
        let mut i: u8 = 0;
        while i < self.size.x
            invariant
                i <= self.size.x,
                f@ == base + mv_seq(self.position) + seq!['╔'] + hbar(i as nat),
            decreases self.size.x - i,
        {
            f.append("═");
            proof {
                reveal_strlit("═");
                assert(f@ =~= base + mv_seq(self.position) + seq!['╔'] + hbar(
                    (i + 1) as nat,
                ));
            }
            i = i + 1;
        }
        f.append("╗\n");
        proof {
            reveal_strlit("╗\n");
            assert(f@ =~= base + border_top(self.position, self.size.x));
        }
        let ghost top_done = f@;
        let mut row: u8 = 0;
        while row < self.size.y
            invariant
                row <= self.size.y,
                f@ == top_done + border_rows(row as nat, self.position.x, self.size.x),
                top_done == base + border_top(self.position, self.size.x),
            decreases self.size.y - row,
        {
            let ghost before_row = f@;
            fwd(f, self.position.x.saturating_sub(1));
            f.append("║");
            fwd(f, self.size.x);
            f.append("║\n");
            proof {
                reveal_strlit("║");
                reveal_strlit("║\n");
                assert(f@ =~= before_row + border_row(self.position.x, self.size.x));
                assert(f@ =~= top_done + border_rows(
                    (row + 1) as nat,
                    self.position.x,
                    self.size.x,
                ));
            }
            row = row + 1;
        }
        let ghost rows_done = f@;
        fwd(f, self.position.x.saturating_sub(1));
        f.append("╚");
        proof {
            reveal_strlit("╚");
        }
        let ghost bottom_start = f@;
        let mut j: u8 = 0;
        while j < self.size.x
            invariant
                j <= self.size.x,
                f@ == bottom_start + hbar(j as nat),
                bottom_start == rows_done + fwd_seq(self.position.x.saturating_sub(1))
                    + seq!['╚'],
            decreases self.size.x - j,
        {
            f.append("═");
            proof {
                reveal_strlit("═");
                assert(f@ =~= bottom_start + hbar((j + 1) as nat));
            }
            j = j + 1;
        }
        f.append("╝\n");
        proof {
            reveal_strlit("╝\n");
            assert(f@ =~= rows_done + border_bottom(self.position.x, self.size.x));
            assert(f@ =~= base + border_seq(self.position, self.size));
        }
    }

    /// Shrinks the interior width by `n` columns, floored at 8, and pulls any
    /// food whose column now lies outside back to the last interior column.
    pub fn shrink_width(&mut self, n: u8, food: &mut Vec<Food>)
        ensures
            final(self).size.x == maxi(8, sat_sub(old(self).size.x as int, n as int)),
            final(self).size.y == old(self).size.y,
            final(self).position == old(self).position,
            final(food)@.len() == old(food)@.len(),
            forall|i: int|
                0 <= i < old(food)@.len() ==> final(food)@[i] == (Food {
                    position: Point {
                        x: mini(
                            old(food)@[i].position.x as int,
                            final(self).size.x - 2,
                        ) as u8,
                        ..old(food)@[i].position
                    },
                    ..old(food)@[i]
                }),
    {
        let shrunk = self.size.x.saturating_sub(n);
        self.size.x = if shrunk >= 8 {
            shrunk
        } else {
            8
        };
        let bound = self.size.x - 2;
        let mut k: usize = 0;
        while k < food.len()
            invariant
                k <= food@.len(),
                food@.len() == old(food)@.len(),
                bound == self.size.x - 2,
                self.size.x == maxi(8, sat_sub(old(self).size.x as int, n as int)),
                self.size.y == old(self).size.y,
                self.position == old(self).position,
                forall|i: int|
                    0 <= i < k ==> food@[i] == (Food {
                        position: Point {
                            x: mini(old(food)@[i].position.x as int, bound as int) as u8,
                            ..old(food)@[i].position
                        },
                        ..old(food)@[i]
                    }),
                forall|i: int| k <= i < food@.len() ==> food@[i] == old(food)@[i],
            decreases food@.len() - k,
        {
            if food[k].position.x > bound {
                let excess = food[k].position.x - bound;
                let fixed = food[k].position.x - excess;
                let mut fd = food[k];
                fd.position.x = fixed;
                food.set(k, fd);
            }
            k = k + 1;
        }
    }

    /// Shrinks the interior height by `n` rows, floored at 8, and pulls any
    /// food whose doubled row now lies outside back to the last interior row.
    pub fn shrink_height(&mut self, n: u8, food: &mut Vec<Food>)
        requires
            old(self).size.y <= 128,
        ensures
            final(self).size.y == maxi(8, sat_sub(old(self).size.y as int, n as int)),
            final(self).size.x == old(self).size.x,
            final(self).position == old(self).position,
            final(food)@.len() == old(food)@.len(),
            forall|i: int|
                0 <= i < old(food)@.len() ==> final(food)@[i] == (Food {
                    position: Point {
                        y: mini(
                            old(food)@[i].position.y as int,
                            (final(self).size.y - 1) * 2,
                        ) as u8,
                        ..old(food)@[i].position
                    },
                    ..old(food)@[i]
                }),
    {
        let shrunk = self.size.y.saturating_sub(n);
        self.size.y = if shrunk >= 8 {
            shrunk
        } else {
            8
        };
        let bound = (self.size.y - 1) * 2;
        let mut k: usize = 0;
        while k < food.len()
            invariant
                k <= food@.len(),
                food@.len() == old(food)@.len(),
                bound == (self.size.y - 1) * 2,
                self.size.y == maxi(8, sat_sub(old(self).size.y as int, n as int)),
                self.size.x == old(self).size.x,
                self.position == old(self).position,
                forall|i: int|
                    0 <= i < k ==> food@[i] == (Food {
                        position: Point {
                            y: mini(old(food)@[i].position.y as int, bound as int) as u8,
                            ..old(food)@[i].position
                        },
                        ..old(food)@[i]
                    }),
                forall|i: int| k <= i < food@.len() ==> food@[i] == old(food)@[i],
            decreases food@.len() - k,
        {
            if food[k].position.y > bound {
                let excess = food[k].position.y - bound;
                let fixed = food[k].position.y - excess;
                let mut fd = food[k];
                fd.position.y = fixed;
                food.set(k, fd);
            }
            k = k + 1;
        }
    }
}

/// The closed set of steering policies an agent can follow.
#[derive(Clone, Copy, PartialEq, Eq, Structural, Debug)]
pub enum Strategy {
    Player,
    Speed,
    Score,
    Eat,
    Kill,
    Cannibal,
}

/// The 256-color index that identifies each strategy on screen.
pub open spec fn strategy_color(s: Strategy) -> u8 {
    match s {
        Strategy::Player => 84,
        Strategy::Speed => 51,
        Strategy::Score => 208,
        Strategy::Eat => 195,
        Strategy::Kill => 210,
        Strategy::Cannibal => 190,
    }
}

impl Strategy {
    pub fn color(&self) -> (r: u8)
        ensures
            r == strategy_color(*self),
    {
        match self {
            Strategy::Player => 84,
            Strategy::Speed => 51,
            Strategy::Score => 208,
            Strategy::Eat => 195,
            Strategy::Kill => 210,
            Strategy::Cannibal => 190,
        }
    }
}

/// What eating a food item does to the eater.
#[derive(Clone, Copy, PartialEq, Eq, Structural, Debug)]
pub enum Effect {
    Neutral,
    Speed,
    Nourish,
    Cannibal,
}

/// The effect that an index selects, cycling through all four kinds.
pub open spec fn effect_of_index(v: int) -> Effect {
    if v % 4 == 0 {
        Effect::Neutral
    } else if v % 4 == 1 {
        Effect::Speed
    } else if v % 4 == 2 {
        Effect::Nourish
    } else {
        Effect::Cannibal
    }
}

impl core::convert::From<usize> for Effect {
    fn from(value: usize) -> (r: Effect) {
        match value % 4 {
            0 => Effect::Neutral,
            1 => Effect::Speed,
            2 => Effect::Nourish,
            _ => Effect::Cannibal,
        }
    }
}

impl vstd::std_specs::convert::FromSpecImpl<usize> for Effect {
    open spec fn obeys_from_spec() -> bool {
        true
    }

    open spec fn from_spec(v: usize) -> Effect {
        effect_of_index(v as int)
    }
}

/// How long one cannibal window lasts, in seconds.
pub const EFFECT_SECONDS: u64 = 10;

/// How long one cannibal window lasts, in the milliseconds that the engine's
/// clock counts.
pub const EFFECT_MILLIS: u64 = EFFECT_SECONDS * 1000;

/// A food item: a glyph at a position, with the effect eating it applies.
/// Food is never destroyed; a consumed item relocates to a fresh random
/// position.
#[derive(Clone, Copy)]
pub struct Food {
    pub shape: &'static str,
    pub position: Point,
    pub color: u8,
    pub effect: Effect,
}

/// The glyph of each food kind.
pub open spec fn food_shape(effect: Effect) -> Seq<char> {
    match effect {
        Effect::Neutral => seq!['\u{f025b}'],
        Effect::Speed => seq!['\u{f0e7}'],
        Effect::Nourish => seq!['\u{f1a61}'],
        Effect::Cannibal => seq!['\u{e7a1}'],
    }
}

/// The 256-color index of each food kind.
pub open spec fn food_color(effect: Effect) -> u8 {
    match effect {
        Effect::Neutral => 41,
        Effect::Speed => 226,
        Effect::Nourish => 213,
        Effect::Cannibal => 167,
    }
}

impl Food {
    pub fn new(effect: Effect, position: Point) -> (r: Food)
        ensures
            r.effect == effect,
            r.position == position,
            r.color == food_color(effect),
            r.shape@ == food_shape(effect),
    {
        let r = match effect {
            Effect::Neutral => Food { shape: "\u{f025b}", position, color: 41, effect },
            Effect::Speed => Food { shape: "\u{f0e7}", position, color: 226, effect },
            Effect::Nourish => Food { shape: "\u{f1a61}", position, color: 213, effect },
            Effect::Cannibal => Food { shape: "\u{e7a1}", position, color: 167, effect },
        };
        proof {
            reveal_strlit("\u{f025b}");
            reveal_strlit("\u{f0e7}");
            reveal_strlit("\u{e7a1}");
            reveal_strlit("\u{f1a61}");
            
            assert(r.shape@ =~= food_shape(effect));
        }
        r
    }

    /// A food item of the given kind at a fresh random position.
    pub fn random(effect: Effect, rng: &mut Rng, end: &Point) -> (r: Food)
        requires
            1 <= end.x,
            1 <= end.y <= 127,
        ensures
            r.effect == effect,
            r.position == crate::math::random_point(old(rng).state, *end),
            r.color == food_color(effect),
            r.shape@ == food_shape(effect),
            final(rng).state == crate::math::rng_next(crate::math::rng_next(old(rng).state)),
    {
        Food::new(effect, Point::random(rng, end))
    }

    /// Appends this food's glyph, in its color, at its screen cell.
    pub fn render(&self, f: &mut String, offset: &Point)
        requires
            self.position.x + offset.x + 1 <= u8::MAX,
            self.position.y + 2 <= u8::MAX,
            (self.position.y + 2) / 2 + offset.y <= u8::MAX,
        ensures
            final(f)@ == old(f)@ + fg_seq(self.color) + mv_seq(
                self.position.offset_spec(*offset),
            ) + self.shape@ + reset_seq(),
    {
        fg(f, self.color);
        self.position.offset(offset).render(self.shape, f);
        reset(f);
        proof {
            assert(final(f)@ =~= old(f)@ + fg_seq(self.color) + mv_seq(
                self.position.offset_spec(*offset),
            ) + self.shape@ + reset_seq());
        }
    }
}

/// How many segments eating a food item appends: one, or two under
/// Nourish's extra growth.
pub open spec fn effect_growth(e: Effect) -> nat {
    if e == Effect::Nourish {
        2
    } else {
        1
    }
}

impl Food {
    /// Applies this food's effect to the eater: Speed lowers the stored
    /// delay by 3 (saturating), Nourish doubles the growth, Cannibal opens
    /// the cannibal window until `now + EFFECT_MILLIS`; and the eater always
    /// grows at its head, by one segment or two under Nourish.
    pub fn apply_effect(&self, snake: &mut Snake, now: u64)
        requires
            old(snake).wf(),
            old(snake).spec_len() + 2 <= usize::MAX,
        ensures
            final(snake).wf(),
            ate_food_outcome(*old(snake), *final(snake), *self, old(snake).head_pt(), now),
    {
        let mut growth: usize = 1;
        match self.effect {
            Effect::Neutral => (),
            Effect::Speed => snake.add_speed(3),
            Effect::Nourish => growth = 2,
            Effect::Cannibal => snake.cannibal_until = now.saturating_add(EFFECT_MILLIS),
        }
        let head = *snake.head();
        snake.grow(growth, head);
    }
}

/// The index of the nearest food of the given kind, earliest first on ties;
/// `-1` when no food matches.
pub open spec fn best_food_idx(food: Seq<Food>, head: Point, effect: Effect) -> int
    decreases food.len(),
{
    if food.len() == 0 {
        -1
    } else {
        let b = best_food_idx(food.drop_last(), head, effect);
        let last = food.len() - 1;
        if food[last].effect == effect && (b == -1 || quick_dist(head, food[last].position)
            < quick_dist(head, food[b].position)) {
            last
        } else {
            b
        }
    }
}

/// Every index that `best_food_idx` returns is a matching one, and none
/// matches when it returns `-1`.
pub proof fn lemma_best_food_idx(food: Seq<Food>, head: Point, effect: Effect)
    ensures
        best_food_idx(food, head, effect) == -1 ==> forall|i: int|
            0 <= i < food.len() ==> food[i].effect != effect,
        best_food_idx(food, head, effect) != -1 ==> {
            let b = best_food_idx(food, head, effect);
            &&& 0 <= b < food.len()
            &&& food[b].effect == effect
        },
    decreases food.len(),
{
    if food.len() > 0 {
        lemma_best_food_idx(food.drop_last(), head, effect);
        assert(forall|i: int|
            0 <= i < food.len() - 1 ==> food[i] == food.drop_last()[i]);
    }
}

/// The position of the nearest food item carrying `effect`, by Manhattan
/// distance from `head`; among equally near items the earliest wins.
pub fn locate_food(food: &Vec<Food>, head: &Point, effect: Effect) -> (r: Point)
    requires
        exists|i: int| 0 <= i < food@.len() && food@[i].effect == effect,
    ensures
        best_food_idx(food@, *head, effect) >= 0,
        r == food@[best_food_idx(food@, *head, effect)].position,
{
    let mut found = false;
    let mut best: usize = 0;
    let mut k: usize = 0;
    while k < food.len()
        invariant
            k <= food@.len(),
            !found ==> best_food_idx(food@.take(k as int), *head, effect) == -1,
            found ==> best < k && best == best_food_idx(food@.take(k as int), *head, effect),
        decreases food@.len() - k,
    {
        proof {
            assert(food@.take(k as int + 1).drop_last() =~= food@.take(k as int));
            assert(food@.take(k as int + 1)[k as int] == food@[k as int]);
        }
        if food[k].effect == effect {
            if !found {
                found = true;
                best = k;
            } else {
                let cur = head.quick_distance(&food[k].position);
                let old_best = head.quick_distance(&food[best].position);
                if cur < old_best {
                    best = k;
                }
            }
        }
        k = k + 1;
    }
    proof {
        assert(food@.take(food@.len() as int) =~= food@);
        lemma_best_food_idx(food@, *head, effect);
    }
    food[best].position
}

} // verus!
