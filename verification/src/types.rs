//! Shared scalar types: turn counter, cardinal directions, and dice.

use vstd::prelude::*;
use crate::rng::random_in_range;

verus! {

pub type TurnNumber = u64;

/// The four cardinal directions; there is no diagonal movement.
#[derive(Debug, Clone, Copy, PartialEq, Eq, Hash, Structural)]
pub enum Direction {
    North,
    East,
    South,
    West,
}

#[derive(PartialEq, Eq, Clone, Debug)]
pub enum Dice {
    D4,
    D6,
    D8,
    D10,
    D12,
    D20,
    D100,
    Flat(u64),
}

impl Dice {
    /// Number of sides of the die; a `Flat` die stands for a fixed value.
    pub open spec fn spec_sides(&self) -> u64 {
        match self {
            Dice::D4 => 4,
            Dice::D6 => 6,
            Dice::D8 => 8,
            Dice::D10 => 10,
            Dice::D12 => 12,
            Dice::D20 => 20,
            Dice::D100 => 100,
            Dice::Flat(sides) => *sides,
        }
    }

    pub fn sides(&self) -> (r: u64)
        ensures
            r == self.spec_sides(),
    {
        match self {
            Dice::D4 => 4,
            Dice::D6 => 6,
            Dice::D8 => 8,
            Dice::D10 => 10,
            Dice::D12 => 12,
            Dice::D20 => 20,
            Dice::D100 => 100,
            Dice::Flat(sides) => *sides,
        }
    }
}

#[derive(PartialEq, Eq, Clone, Debug)]
pub struct DieRoll {
    pub count: u64,
    pub dice: Dice,
    pub modifier: i64,
}

impl DieRoll {
    /// Rolls the dice: a `Flat` die contributes `sides * count` exactly;
    /// any other die is drawn `count` times, each draw in `[1, sides)`,
    /// and the draws are summed. The modifier is added at the end.
    pub fn roll(&self) -> (r: i64)
        requires
            self.count * self.dice.spec_sides() <= i64::MAX,
            self.count * self.dice.spec_sides() + self.modifier <= i64::MAX,
        ensures
            self.dice matches Dice::Flat(sides) ==> r == self.count * sides + self.modifier,
            !(self.dice matches Dice::Flat(_)) ==> self.count + self.modifier <= r <= self.count
                * (self.dice.spec_sides() - 1) + self.modifier,
    {
        let roll_result: u64 = match self.dice {
            Dice::Flat(sides) => {
                proof {
                    assert(self.dice.spec_sides() == sides);
                    assert(sides * self.count == self.count * sides) by (nonlinear_arith);
                }
                sides * self.count
            },
            _ => {
                let s: u64 = self.dice.sides();
                let mut sum: u64 = 0;
                let mut i: u64 = 0;
                while i < self.count
                    invariant
                        i <= self.count,
                        2 <= s == self.dice.spec_sides(),
                        self.count * s <= i64::MAX,
                        i <= sum <= i * (s - 1),
                    decreases self.count - i,
                {
                    proof {
                        lemma_sum_step_bound(i as int, self.count as int, s as int, sum as int);
                    }
                    let d = random_in_range(1, s);
                    sum = sum + d;
                    i = i + 1;
                }
                proof {
                    lemma_partial_sum_bound(self.count as int, s as int);
                }
                sum
            },
        };
        proof {
            if !(self.dice matches Dice::Flat(_)) {
                lemma_partial_sum_bound(self.count as int, self.dice.spec_sides() as int);
            }
            assert(roll_result <= self.count * self.dice.spec_sides());
            assert(roll_result <= i64::MAX);
        }
        roll_result as i64 + self.modifier
    }
}

proof fn lemma_sum_step_bound(i: int, count: int, s: int, sum: int)
    requires
        0 <= i < count,
        2 <= s,
        count * s <= i64::MAX,
        sum <= i * (s - 1),
    ensures
        sum + (s - 1) <= (i + 1) * (s - 1) <= count * s,
{
    assert(sum + (s - 1) <= (i + 1) * (s - 1) && (i + 1) * (s - 1) <= count * s)
        by (nonlinear_arith)
        requires
            0 <= i < count,
            2 <= s,
            sum <= i * (s - 1),
    ;
}

proof fn lemma_partial_sum_bound(count: int, s: int)
    requires
        0 <= count,
        2 <= s,
    ensures
        count * (s - 1) <= count * s,
{
    assert(count * (s - 1) <= count * s) by (nonlinear_arith)
        requires
            0 <= count,
            2 <= s,
    ;
}

} // verus!
