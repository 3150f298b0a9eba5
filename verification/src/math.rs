//! Plane geometry on the doubled-resolution grid: points, directions, the
//! deterministic pseudo-random generator, and the distance heuristics that
//! drive agent steering.

use vstd::prelude::*;
use crate::esc::{mv, mv_seq};

verus! {

/// Multiplier of the linear congruential generator.
pub const LCG_MULT: u64 = 1664525;

/// Increment of the linear congruential generator.
pub const LCG_INCR: u64 = 1013904223;

/// One step of the linear congruential generator.
pub open spec fn rng_next(s: u64) -> u64 {
    s.wrapping_mul(LCG_MULT).wrapping_add(LCG_INCR)
}

/// A deterministic pseudo-random generator (a linear congruential generator).
/// The caller supplies the seed; every draw advances the state by one
/// `rng_next` step.
pub struct Rng {
    pub state: u64,
}

impl Rng {
    pub fn new(seed: u64) -> (r: Rng)
        ensures
            r.state == seed,
    {
        Rng { state: seed }
    }

    /// Draws a value below `max`.
    pub fn generate(&mut self, max: u64) -> (r: u64)
        requires
            max >= 1,
        ensures
            final(self).state == rng_next(old(self).state),
            r == rng_next(old(self).state) % max,
            r < max,
    {
        self.state = self.state.wrapping_mul(LCG_MULT).wrapping_add(LCG_INCR);
        self.state % max
    }
}

/// A cell of the arena. `x` is a column index at single resolution; `y` is a
/// row index at double resolution: two logical rows share one physical
/// terminal row.
#[derive(Clone, Copy, PartialEq, Eq, Structural, Debug)]
pub struct Point {
    pub x: u8,
    pub y: u8,
}

/// The point that two fresh draws of the generator produce inside the
/// rectangle `[0, end.x) x [0, 2 * end.y)`, starting from generator state `s`.
pub open spec fn random_point(s: u64, end: Point) -> Point {
    Point {
        x: (rng_next(s) as int % (end.x as int)) as u8,
        y: (rng_next(rng_next(s)) as int % (2 * end.y as int)) as u8,
    }
}

/// `isqrt(n)` is the integer square root of `n`: the largest `r` with
/// `r * r <= n`.
pub open spec fn isqrt(n: nat) -> nat
    decreases n,
{
    if n == 0 {
        0
    } else {
        let r = isqrt((n - 1) as nat);
        if (r + 1) * (r + 1) <= n {
            r + 1
        } else {
            r
        }
    }
}

pub proof fn lemma_isqrt_bounds(n: nat)
    ensures
        isqrt(n) * isqrt(n) <= n,
        n < (isqrt(n) + 1) * (isqrt(n) + 1),
    decreases n,
{
    if n > 0 {
        lemma_isqrt_bounds((n - 1) as nat);
        let r = isqrt((n - 1) as nat);
        if (r + 1) * (r + 1) <= n {
            assert(isqrt(n) == r + 1);
            assert((r + 2) * (r + 2) > (r + 1) * (r + 1)) by (nonlinear_arith);
        } else {
            assert(isqrt(n) == r);
        }
    } else {
        assert(isqrt(n) == 0);
        assert(n < (isqrt(n) + 1) * (isqrt(n) + 1)) by (nonlinear_arith)
            requires n == 0 && isqrt(n) == 0;
    }
}

/// Both coordinate deltas of `a` and `b`, squared and summed: the square of
/// the Euclidean distance.
pub open spec fn sq_dist(a: Point, b: Point) -> nat {
    let dx = if a.x >= b.x {
        a.x - b.x
    } else {
        b.x - a.x
    };
    let dy = if a.y >= b.y {
        a.y - b.y
    } else {
        b.y - a.y
    };
    (dx * dx + dy * dy) as nat
}

/// The Euclidean distance between `a` and `b`, rounded down.
pub open spec fn euclid_dist(a: Point, b: Point) -> nat {
    isqrt(sq_dist(a, b))
}

/// The Manhattan distance between `a` and `b`.
pub open spec fn quick_dist(a: Point, b: Point) -> nat {
    let dx = if a.x >= b.x {
        a.x - b.x
    } else {
        b.x - a.x
    };
    let dy = if a.y >= b.y {
        a.y - b.y
    } else {
        b.y - a.y
    };
    (dx + dy) as nat
}

impl Point {
    pub fn new(x: u8, y: u8) -> (r: Point)
        ensures
            r == (Point { x, y }),
    {
        Point { x, y }
    }

    /// A fresh random point inside `[0, end.x) x [0, 2 * end.y)`.
    pub fn random(rng: &mut Rng, end: &Point) -> (r: Point)
        requires
            1 <= end.x,
            1 <= end.y <= 127,
        ensures
            r == random_point(old(rng).state, *end),
            final(rng).state == rng_next(rng_next(old(rng).state)),
    {
        let mut p = Point { x: 0, y: 0 };
        p.randomize(rng, end);
        p
    }

    /// Replaces this point by a fresh random point inside
    /// `[0, end.x) x [0, 2 * end.y)`.
    pub fn randomize(&mut self, rng: &mut Rng, end: &Point)
        requires
            1 <= end.x,
            1 <= end.y <= 127,
        ensures
            *final(self) == random_point(old(rng).state, *end),
            final(rng).state == rng_next(rng_next(old(rng).state)),
    {
        self.x = rng.generate(end.x as u64) as u8;
        self.y = rng.generate(end.y as u64 * 2) as u8;
    }

    /// The point shifted by a signed delta per axis, wrapping each `u8`
    /// coordinate around without regard to any arena bound.
    pub open spec fn shifted_spec(self, d: (i8, i8)) -> Point {
        Point { x: self.x.wrapping_add_signed(d.0), y: self.y.wrapping_add_signed(d.1) }
    }

    pub fn shifted(self, d: (i8, i8)) -> (r: Point)
        ensures
            r == self.shifted_spec(d),
    {
        Point { x: self.x.wrapping_add_signed(d.0), y: self.y.wrapping_add_signed(d.1) }
    }

    /// The physical terminal cell that this logical point occupies, given the
    /// arena's viewport offset `p`: one column to the right of the border, and
    /// one physical row per two logical rows, biased past the border row.
    pub open spec fn offset_spec(self, p: Point) -> Point {
        Point { x: (self.x + p.x + 1) as u8, y: ((self.y + 2) / 2 + p.y) as u8 }
    }

    pub fn offset(&self, p: &Point) -> (r: Point)
        requires
            self.x + p.x + 1 <= u8::MAX,
            self.y + 2 <= u8::MAX,
            (self.y + 2) / 2 + p.y <= u8::MAX,
        ensures
            r == self.offset_spec(*p),
    {
        Point { x: self.x + p.x + 1, y: (self.y + 2) / 2 + p.y }
    }

    /// Moves the cursor to this point and writes the glyph `c` there.
    pub fn render(&self, c: &str, f: &mut String)
        ensures
            final(f)@ == old(f)@ + mv_seq(*self) + c@,
    {
        mv(f, self);
        f.append(c);
        proof {
            assert(final(f)@ =~= old(f)@ + mv_seq(*self) + c@);
        }
    }

    /// The Manhattan distance to `p`.
    pub fn quick_distance(&self, p: &Point) -> (r: u32)
        ensures
            r == quick_dist(*self, *p),
    {
        let dx: u8 = if self.x >= p.x {
            self.x - p.x
        } else {
            p.x - self.x
        };
        let dy: u8 = if self.y >= p.y {
            self.y - p.y
        } else {
            p.y - self.y
        };
        dx as u32 + dy as u32
    }

    /// The Euclidean distance to `p`, rounded down.
    pub fn distance(&self, p: &Point) -> (r: u32)
        ensures
            r == euclid_dist(*self, *p),
    {
        let dx: u32 = if self.x >= p.x {
            (self.x - p.x) as u32
        } else {
            (p.x - self.x) as u32
        };
        let dy: u32 = if self.y >= p.y {
            (self.y - p.y) as u32
        } else {
            (p.y - self.y) as u32
        };
        proof {
            assert(dx * dx <= 255 * 255 && dy * dy <= 255 * 255) by (nonlinear_arith)
                requires dx <= 255, dy <= 255;
        }
        let s: u32 = dx * dx + dy * dy;
        let mut r: u32 = 0;
        while (r + 1) * (r + 1) <= s
            invariant
                r * r <= s,
                s <= 130050,
                r <= 361,
                (r + 1) * (r + 1) <= 131044,
            decreases 361 - r,
        {
            proof {
                assert(r + 1 <= 361) by (nonlinear_arith)
                    requires (r + 1) * (r + 1) <= 130050;
                assert((r + 2) * (r + 2) <= 131044) by (nonlinear_arith)
                    requires r + 1 <= 361;
            }
            r = r + 1;
        }
        proof {
            lemma_isqrt_bounds(s as nat);
            let q = isqrt(s as nat);
            assert(r as nat == q) by (nonlinear_arith)
                requires
                    r * r <= s,
                    s < (r + 1) * (r + 1),
                    q * q <= s as nat,
                    (s as nat) < (q + 1) * (q + 1),
            ;
            assert(sq_dist(*self, *p) == s);
        }
        r
    }

    /// The four candidate directions toward `target`, best first: the axis
    /// whose one-step move lands nearer comes first, flipped toward the
    /// wrap-around shortcut when the direct approach would cross more than
    /// half the arena.
    pub open spec fn nearest_directions_spec(self, target: Point, bounds: Point) -> Seq<
        Direction,
    > {
        let dh = if self.x > target.x {
            Direction::Left
        } else {
            Direction::Right
        };
        let dist_h = euclid_dist(target, self.shifted_spec(dh.coords_spec()));
        let dv = if self.y > target.y {
            Direction::Up
        } else {
            Direction::Down
        };
        let dist_v = euclid_dist(target, self.shifted_spec(dv.coords_spec()));
        if dist_h < dist_v {
            if dist_h > (bounds.x + 1) / 2 {
                seq![dh.inverse_spec(), dh, dv, dv.inverse_spec()]
            } else {
                seq![dh, dv, dv.inverse_spec(), dh.inverse_spec()]
            }
        } else if dist_v > bounds.y + 2 {
            seq![dv.inverse_spec(), dv, dh, dh.inverse_spec()]
        } else {
            seq![dv, dh, dh.inverse_spec(), dv.inverse_spec()]
        }
    }

    pub fn nearest_directions(&self, target: &Point, bounds: &Point) -> (r: [Direction; 4])
        ensures
            r@ == self.nearest_directions_spec(*target, *bounds),
    {
        let direction_h = if self.x > target.x {
            Direction::Left
        } else {
            Direction::Right
        };
        let distance_h = target.distance(&self.shifted(direction_h.coords()));
        let direction_v = if self.y > target.y {
            Direction::Up
        } else {
            Direction::Down
        };
        let distance_v = target.distance(&self.shifted(direction_v.coords()));
        let r: [Direction; 4] = if distance_h < distance_v {
            if distance_h > (bounds.x as u32 + 1) / 2 {
                [direction_h.inverse(), direction_h, direction_v, direction_v.inverse()]
            } else {
                [direction_h, direction_v, direction_v.inverse(), direction_h.inverse()]
            }
        } else if distance_v > bounds.y as u32 + 2 {
            [direction_v.inverse(), direction_v, direction_h, direction_h.inverse()]
        } else {
            [direction_v, direction_h, direction_h.inverse(), direction_v.inverse()]
        };
        proof {
            assert(r@ =~= self.nearest_directions_spec(*target, *bounds));
        }
        r
    }
}

/// A point together with the 256-color index it was drawn in; a pending
/// half-cell of the compositor.
#[derive(Clone, Copy, PartialEq, Eq, Structural, Debug)]
pub struct ColoredPoint {
    pub point: Point,
    pub color: u8,
}

/// Returns the current value of the index and cyclically decrements it: the
/// predecessor of 0 is `v.len() - 1`.
pub fn cycle_back<T>(v: &[T], i: &mut usize) -> (r: usize)
    requires
        v@.len() >= 1,
    ensures
        r == *old(i),
        *final(i) == if r == 0 {
            v@.len() - 1
        } else {
            (r - 1) as int
        },
{
    let r = *i;
    *i = if r == 0 {
        v.len() - 1
    } else {
        r - 1
    };
    r
}

/// A heading on the grid.
#[derive(Clone, Copy, PartialEq, Eq, Structural, Debug)]
pub enum Direction {
    Up,
    Right,
    Down,
    Left,
}

/// The direction that two draws below 4 select.
pub open spec fn direction_of_index(n: u64) -> Direction {
    if n == 0 {
        Direction::Up
    } else if n == 1 {
        Direction::Right
    } else if n == 2 {
        Direction::Down
    } else {
        Direction::Left
    }
}

impl Direction {
    /// A direction picked by one draw of the generator.
    pub fn random(rng: &mut Rng) -> (r: Direction)
        ensures
            r == direction_of_index(rng_next(old(rng).state) % 4),
            final(rng).state == rng_next(old(rng).state),
    {
        match rng.generate(4) {
            0 => Direction::Up,
            1 => Direction::Right,
            2 => Direction::Down,
            _ => Direction::Left,
        }
    }

    /// The opposite heading: a 180 degree turn.
    pub open spec fn inverse_spec(self) -> Direction {
        match self {
            Direction::Up => Direction::Down,
            Direction::Right => Direction::Left,
            Direction::Down => Direction::Up,
            Direction::Left => Direction::Right,
        }
    }

    pub fn inverse(&self) -> (r: Direction)
        ensures
            r == self.inverse_spec(),
    {
        match self {
            Direction::Up => Direction::Down,
            Direction::Right => Direction::Left,
            Direction::Down => Direction::Up,
            Direction::Left => Direction::Right,
        }
    }

    /// The unit vector of this heading. Up decreases `y`; Down increases it.
    pub open spec fn coords_spec(self) -> (i8, i8) {
        match self {
            Direction::Up => (0i8, -1i8),
            Direction::Right => (1i8, 0i8),
            Direction::Down => (0i8, 1i8),
            Direction::Left => (-1i8, 0i8),
        }
    }

    pub fn coords(&self) -> (r: (i8, i8))
        ensures
            r == self.coords_spec(),
    {
        match self {
            Direction::Up => (0, -1),
            Direction::Right => (1, 0),
            Direction::Down => (0, 1),
            Direction::Left => (-1, 0),
        }
    }
}

/// One movement step on the torus: the point shifted one cell along `d`, each
/// axis wrapped into `[0, size.x)` and `[0, 2 * size.y)` respectively.
pub open spec fn torus_step(p: Point, d: Direction, size: Point) -> Point {
    let q = p.shifted_spec(d.coords_spec());
    let x = if q.x == u8::MAX {
        (size.x - 1) as u8
    } else if q.x > size.x - 1 {
        0u8
    } else {
        q.x
    };
    let y = if q.y == u8::MAX {
        (2 * size.y - 1) as u8
    } else if q.y > 2 * size.y - 1 {
        0u8
    } else {
        q.y
    };
    Point { x, y }
}

impl Point {
    /// One movement step on the torus, executable form of [`torus_step`].
    pub fn step(&self, d: Direction, size: &Point) -> (r: Point)
        requires
            1 <= size.x,
            1 <= size.y <= 127,
        ensures
            r == torus_step(*self, d, *size),
    {
        let q = self.shifted(d.coords());
        let x = if q.x == u8::MAX {
            size.x - 1
        } else if q.x > size.x - 1 {
            0
        } else {
            q.x
        };
        let bound2 = size.y * 2 - 1;
        let y = if q.y == u8::MAX {
            bound2
        } else if q.y > bound2 {
            0
        } else {
            q.y
        };
        Point { x, y }
    }
}

/// The torus keeps every step inside the arena: from any position, one step
/// along any direction lands in `[0, size.x) x [0, 2 * size.y)`, and a step
/// off a low edge re-enters at the opposite high edge, and vice versa.
///
/// The top arena width of 255 columns is left out: there the raw `u8` wrap
/// coincides with the arena wrap and the high column edge folds onto itself.
pub proof fn lemma_wrap_invariant(p: Point, d: Direction, size: Point)
    requires
        1 <= size.x <= 254,
        1 <= size.y <= 127,
    ensures
        torus_step(p, d, size).x < size.x,
        torus_step(p, d, size).y < 2 * size.y,
        p.x == 0 && d == Direction::Left ==> torus_step(p, d, size).x == size.x - 1,
        p.x == size.x - 1 && d == Direction::Right ==> torus_step(p, d, size).x == 0,
        p.y == 0 && d == Direction::Up ==> torus_step(p, d, size).y == 2 * size.y - 1,
        p.y == 2 * size.y - 1 && d == Direction::Down ==> torus_step(p, d, size).y == 0,
{
}

} // verus!
