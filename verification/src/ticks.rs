//! Synthetic price ticks: a bounded random walk in integer cents.
//!
//! Prices are integers in hundredths of a currency unit, so the original
//! tick deltas of one hundredth become steps of one cent. Each step adds a
//! delta drawn from the fixed biased set `{-1, -1, 0, 0, 0, 1, 1}` and clamps
//! the result to a floor, so prices stay positive.

use vstd::prelude::*;
use rand::Rng;

verus! {

/// The larger of two prices.
pub fn max(x: i64, y: i64) -> (r: i64)
    ensures
        r == if x > y { x } else { y },
{
    if x > y {
        x
    } else {
        y
    }
}

/// One step of the walk: the price moved by `delta`, clamped to `floor`.
pub open spec fn spec_step(price: int, delta: int, floor: int) -> int {
    if price + delta > floor {
        price + delta
    } else {
        floor
    }
}

/// Advances a price by one delta, clamping at the floor.
pub fn step_price(price: i64, delta: i64, floor: i64) -> (r: i64)
    requires
        -1 <= delta <= 1,
        i64::MIN < price < i64::MAX,
    ensures
        r == spec_step(price as int, delta as int, floor as int),
        r >= floor,
{
    max(floor, price + delta)
}

/// The delta that a drawn choice in `0..7` stands for: two chances each of a
/// one-cent move down or up, three of no move.
pub open spec fn spec_delta(choice: int) -> int {
    if choice < 2 {
        -1
    } else if choice < 5 {
        0
    } else {
        1
    }
}

/// Maps a drawn choice to its tick delta.
pub fn delta_for(choice: usize) -> (r: i64)
    requires
        choice < 7,
    ensures
        r == spec_delta(choice as int),
{
    if choice < 2 {
        -1
    } else if choice < 5 {
        0
    } else {
        1
    }
}

/// Relies on rand::Rng::gen_range over the thread-local generator: for the
/// non-empty constant range `0..7` it returns a value in that range.
#[verifier::external_body]
fn draw_step_choice() -> (r: usize)
    ensures
        r < 7,
{
    rand::thread_rng().gen_range(0..7)
}

/// Produces an unbounded walk of prices, each within one cent of the last and
/// never below the floor.
pub struct TickGenerator {
    pub price: i64,
    pub floor: i64,
}

impl TickGenerator {
    /// The current price never sits below the floor.
    pub open spec fn wf(self) -> bool {
        self.price >= self.floor
    }

    /// A generator starting at `start` with the given price floor.
    pub fn new(start: i64, floor: i64) -> (g: TickGenerator)
        requires
            start >= floor,
        ensures
            g.wf(),
            g.price == start,
            g.floor == floor,
    {
        TickGenerator { price: start, floor }
    }

    /// Draws one delta, advances the price, and returns the new price. The
    /// delta is random; whatever was drawn, the new price is one clamped step
    /// from the old one.
    pub fn next(&mut self) -> (px: i64)
        requires
            old(self).wf(),
            old(self).floor > i64::MIN,
            old(self).price < i64::MAX,
        ensures
            final(self).wf(),
            final(self).floor == old(self).floor,
            final(self).price == px,
            px >= old(self).floor,
            old(self).price - 1 <= px <= old(self).price + 1,
            exists|d: int|
                -1 <= d <= 1 && px == spec_step(
                    old(self).price as int,
                    d,
                    old(self).floor as int,
                ),
    {
        let choice = draw_step_choice();
        let delta = delta_for(choice);
        let px = step_price(self.price, delta, self.floor);
        proof {
            assert(-1 <= delta as int <= 1 && px == spec_step(
                old(self).price as int,
                delta as int,
                old(self).floor as int,
            ));
        }
        self.price = px;
        px
    }
}

} // verus!
