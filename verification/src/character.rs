//! Stat quantities, capped stats, dice and damage rolls.

use vstd::prelude::*;

use crate::rng::RandomSource;

verus! {

/// Values compatible with hit points.
#[derive(Clone, Copy, Debug, Default, Hash, PartialEq, Eq, PartialOrd, Ord, Structural)]
pub struct HitPoint(pub i64);

/// Values compatible with experience levels.
#[derive(Clone, Copy, Debug, Default, Hash, PartialEq, Eq, PartialOrd, Ord, Structural)]
pub struct Level(pub i64);

/// Values compatible with strength.
#[derive(Clone, Copy, Debug, Default, Hash, PartialEq, Eq, PartialOrd, Ord, Structural)]
pub struct Strength(pub i64);

/// Values compatible with the defense power of armors.
#[derive(Clone, Copy, Debug, Default, Hash, PartialEq, Eq, PartialOrd, Ord, Structural)]
pub struct Defense(pub i32);

/// Values compatible with experience points.
#[derive(Clone, Copy, Debug, Default, Hash, PartialEq, Eq, PartialOrd, Ord, Structural)]
pub struct Exp(pub u32);

/// Values that compare by an integer key.
pub trait IntKeyed: Sized + Copy {
    /// The key comparisons go by.
    spec fn key(self) -> int;

    /// Whether `self` is at most `other`.
    fn le(self, other: Self) -> (r: bool)
        ensures
            r == (self.key() <= other.key()),
    ;
}

impl IntKeyed for HitPoint {
    open spec fn key(self) -> int {
        self.0 as int
    }

    fn le(self, other: Self) -> (r: bool) {
        self.0 <= other.0
    }
}

impl IntKeyed for Level {
    open spec fn key(self) -> int {
        self.0 as int
    }

    fn le(self, other: Self) -> (r: bool) {
        self.0 <= other.0
    }
}

impl IntKeyed for Strength {
    open spec fn key(self) -> int {
        self.0 as int
    }

    fn le(self, other: Self) -> (r: bool) {
        self.0 <= other.0
    }
}

impl IntKeyed for Defense {
    open spec fn key(self) -> int {
        self.0 as int
    }

    fn le(self, other: Self) -> (r: bool) {
        self.0 <= other.0
    }
}

impl IntKeyed for Exp {
    open spec fn key(self) -> int {
        self.0 as int
    }

    fn le(self, other: Self) -> (r: bool) {
        self.0 <= other.0
    }
}

/// A stat with a running maximum: `current` never validly exceeds `max`.
#[derive(Clone, Copy, Debug, Default, PartialEq, Eq)]
pub struct Maxed<T> {
    pub max: T,
    pub current: T,
}

impl<T: Copy> Maxed<T> {
    /// A stat starting at its maximum.
    pub fn max(init: T) -> (r: Maxed<T>)
        ensures
            r.max == init,
            r.current == init,
    {
        Maxed { max: init, current: init }
    }
}

impl<T: IntKeyed> Maxed<T> {
    /// Clamps `current` back down to `max` when it has drifted above it.
    pub fn verify(&mut self)
        ensures
            final(self).max == old(self).max,
            final(self).current == if old(self).current.key() <= old(self).max.key() {
                old(self).current
            } else {
                old(self).max
            },
    {
        if !self.current.le(self.max) {
            self.current = self.max;
        }
    }
}

/// `times` rolls of a die with faces `1..=max`.
#[derive(Clone, Copy, Debug, Default, PartialEq, Eq)]
pub struct Dice<T> {
    pub times: usize,
    pub max: T,
}

impl<T> Dice<T> {
    /// Dice rolling `n` times over faces `1..=m`.
    pub fn new(n: usize, m: T) -> (r: Dice<T>)
        ensures
            r.times == n,
            r.max == m,
    {
        Dice { times: n, max: m }
    }
}

/// Anything that can be rolled for a hit-point amount of damage.
pub trait Damage: Sized {
    /// The roll is meaningful: at least one face, with bounds the arithmetic
    /// can carry.
    spec fn valid(self) -> bool;

    /// Smallest possible roll.
    spec fn min_damage(self) -> int;

    /// Largest possible roll.
    spec fn max_damage(self) -> int;

    /// Rolls for damage; the result always lies between the two bounds.
    fn random<R: RandomSource>(self, rng: &mut R) -> (r: HitPoint)
        requires
            self.valid(),
        ensures
            self.min_damage() <= r.0 as int <= self.max_damage(),
    ;

    /// The smallest possible roll, as a value.
    fn min(self) -> (r: HitPoint)
        requires
            self.valid(),
        ensures
            r.0 as int == self.min_damage(),
    ;

    /// The largest possible roll, as a value.
    fn max(self) -> (r: HitPoint)
        requires
            self.valid(),
        ensures
            r.0 as int == self.max_damage(),
    ;
}

impl Damage for Dice<HitPoint> {
    open spec fn valid(self) -> bool {
        &&& 1 <= self.max.0 <= 0x7fff_ffff
        &&& self.times <= 0x7fff_ffff
    }

    open spec fn min_damage(self) -> int {
        self.times as int
    }

    open spec fn max_damage(self) -> int {
        self.times as int * self.max.0 as int
    }

    fn random<R: RandomSource>(self, rng: &mut R) -> (r: HitPoint) {
        let mut acc: i64 = 0;
        let mut i: usize = 0;
        while i < self.times
            invariant
                self.valid(),
                i <= self.times,
                i as int <= acc as int <= i as int * self.max.0 as int,
            decreases self.times - i,
        {
            let face = rng.range_below(self.max.0 as usize) + 1;
            proof {
                lemma_roll_step(self.times as int, self.max.0 as int, i as int);
            }
            acc = acc + (face as i64);
            i = i + 1;
        }
        proof {
            lemma_roll_bounds(self.times as int, self.max.0 as int);
        }
        HitPoint(acc)
    }

    fn min(self) -> (r: HitPoint) {
        HitPoint(self.times as i64)
    }

    fn max(self) -> (r: HitPoint) {
        proof {
            lemma_roll_bounds(self.times as int, self.max.0 as int);
        }
        HitPoint((self.times as i64) * self.max.0)
    }
}

/// One more roll keeps the running total inside the next pair of bounds.
proof fn lemma_roll_step(times: int, max: int, i: int)
    by (nonlinear_arith)
    requires
        0 <= i < times,
        1 <= max <= 0x7fff_ffff,
        times <= 0x7fff_ffff,
    ensures
        (i + 1) * max == i * max + max,
        (i + 1) * max <= times * max,
        times * max < 0x4000_0000_0000_0000,
{
}

/// The total of all rolls stays within `i64` and above the roll count.
proof fn lemma_roll_bounds(times: int, max: int)
    by (nonlinear_arith)
    requires
        0 <= times <= 0x7fff_ffff,
        1 <= max <= 0x7fff_ffff,
    ensures
        times * max >= times,
        0 <= times * max < 0x4000_0000_0000_0000,
{
}

/// What applying damage did to its target.
#[derive(Clone, Copy, Debug)]
pub enum DamageReaction {
    Death,
    Nothing,
}

/// `value` forced into `[min, max]` by key order; when the bounds cross,
/// `min` wins, exactly as taking the minimum against `max` first does.
pub fn clamp<T: IntKeyed>(value: T, min: T, max: T) -> (r: T)
    ensures
        r.key() == if (if value.key() <= max.key() {
            value.key()
        } else {
            max.key()
        }) <= min.key() {
            min.key()
        } else {
            if value.key() <= max.key() {
                value.key()
            } else {
                max.key()
            }
        },
{
    let low = if value.le(max) {
        value
    } else {
        max
    };
    if low.le(min) {
        min
    } else {
        low
    }
}

} // verus!
