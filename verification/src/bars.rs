//! OHLC bar aggregation over a tick stream.
//!
//! Ticks are integer prices in cents. A per-bar accumulator folds one tick at
//! a time: the first tick fixes `open`, later ticks widen `high`/`low` and
//! move `close`. A bar that never received a tick stays `Empty` and seals to
//! `None`. The spec model of an accumulator is the fold `acc_after` over the
//! sequence of ticks applied to it.

use vstd::prelude::*;
use crate::ticks::TickGenerator;

verus! {

/// One candlestick: the first, highest, lowest, and last price of its ticks.
#[derive(Clone, Copy, Debug, PartialEq, Eq, Structural)]
pub struct OHLC {
    pub open: i64,
    pub high: i64,
    pub low: i64,
    pub close: i64,
}

/// The bar's prices are ordered: `low <= open <= high`, `low <= close <= high`.
pub open spec fn ohlc_wf(b: OHLC) -> bool {
    &&& b.low <= b.open <= b.high
    &&& b.low <= b.close <= b.high
}

/// A per-bar accumulator: untouched, or holding the bar built so far.
#[derive(Clone, Copy, Debug, PartialEq, Eq, Structural)]
pub enum Acc {
    Empty,
    Open(OHLC),
}

/// What applying one tick does to an accumulator: a first tick opens the bar
/// at that price; a later tick widens the extremes and moves the close.
pub open spec fn spec_apply(a: Acc, px: i64) -> Acc {
    match a {
        Acc::Empty => Acc::Open(OHLC { open: px, high: px, low: px, close: px }),
        Acc::Open(b) => Acc::Open(
            OHLC {
                open: b.open,
                high: if px > b.high { px } else { b.high },
                low: if px < b.low { px } else { b.low },
                close: px,
            },
        ),
    }
}

/// The accumulator left by folding a whole tick sequence, oldest first.
pub open spec fn acc_after(ticks: Seq<i64>) -> Acc
    decreases ticks.len(),
{
    if ticks.len() == 0 {
        Acc::Empty
    } else {
        spec_apply(acc_after(ticks.drop_last()), ticks.last())
    }
}

/// A sealed accumulator: `Empty` bars are absent.
pub open spec fn seal_of(a: Acc) -> Option<OHLC> {
    match a {
        Acc::Empty => None,
        Acc::Open(b) => Some(b),
    }
}

/// The accumulator holds no bar, or a well-formed one.
pub open spec fn acc_wf(a: Acc) -> bool {
    match a {
        Acc::Empty => true,
        Acc::Open(b) => ohlc_wf(b),
    }
}

/// Every accumulator reached by folding ticks is well formed: for every
/// sealed bar, `low <= open <= high` and `low <= close <= high`.
pub proof fn lemma_acc_after_wf(ticks: Seq<i64>)
    ensures
        acc_wf(acc_after(ticks)),
    decreases ticks.len(),
{
    if ticks.len() > 0 {
        lemma_acc_after_wf(ticks.drop_last());
    }
}

impl Acc {
    /// Applies one tick to the accumulator.
    pub fn apply(&mut self, px: i64)
        ensures
            *final(self) == spec_apply(*old(self), px),
    {
        match self {
            Acc::Empty => {
                *self = Acc::Open(OHLC { open: px, high: px, low: px, close: px });
            },
            Acc::Open(b) => {
                if px > b.high {
                    b.high = px;
                }
                if px < b.low {
                    b.low = px;
                }
                b.close = px;
            },
        }
    }

    /// Seals the accumulator: the finished bar, or `None` if no tick arrived.
    pub fn seal(self) -> (r: Option<OHLC>)
        ensures
            r == seal_of(self),
    {
        match self {
            Acc::Empty => None,
            Acc::Open(b) => Some(b),
        }
    }
}

/// Folding one more tick extends the fold by one application.
pub proof fn lemma_acc_after_push(s: Seq<i64>, x: i64)
    ensures
        acc_after(s.push(x)) == spec_apply(acc_after(s), x),
{
    assert(s.push(x).drop_last() =~= s);
}

/// The ticks of bar `k` applied to its accumulator once the stream has been
/// consumed up to (but not including) global tick `i`: the bar starts at tick
/// `k * tpb`, and ticks inside the warm-up window (global index below `warm`)
/// are withheld from it.
pub open spec fn applied_prefix(ticks: Seq<i64>, k: int, tpb: int, warm: int, i: int) -> Seq<
    i64,
> {
    let start = if k * tpb > warm { k * tpb } else { warm };
    if start < i {
        ticks.subrange(start, i)
    } else {
        Seq::empty()
    }
}

/// All ticks of bar `k` (0-based) that reach its accumulator.
pub open spec fn bar_slice(ticks: Seq<i64>, k: int, tpb: int, warm: int) -> Seq<i64> {
    applied_prefix(ticks, k, tpb, warm, (k + 1) * tpb)
}

/// The whole bar series that a tick stream yields: bar `k` carries the 1-based
/// index `k + 1` and the sealed fold of its applied ticks.
pub open spec fn spec_bars(ticks: Seq<i64>, bars: int, tpb: int, warm: int) -> Seq<
    (i32, Option<OHLC>),
> {
    Seq::new(
        bars as nat,
        |k: int| (((k + 1) as i32), seal_of(acc_after(bar_slice(ticks, k, tpb, warm)))),
    )
}

/// Aggregates a whole tick stream into its bar series and all-time summary.
///
/// The stream holds exactly `ticks_per_bar` ticks for each wanted bar. Every
/// tick reaches the all-time accumulator; a tick reaches its bar's
/// accumulator only once the warm-up window has passed. The result is pinned
/// exactly: the summary is the fold of all ticks, and bar `k` is the sealed
/// fold of its applied slice, carrying index `k + 1`.
pub fn aggregate(
    ticks: &Vec<i64>,
    bars_wanted: usize,
    ticks_per_bar: usize,
    warmup_ticks: usize,
) -> (r: (Option<OHLC>, Vec<(i32, Option<OHLC>)>))
    requires
        ticks_per_bar >= 1,
        bars_wanted < 0x8000_0000,
        ticks@.len() == bars_wanted * ticks_per_bar,
    ensures
        r.0 == seal_of(acc_after(ticks@)),
        r.1@ == spec_bars(
            ticks@,
            bars_wanted as int,
            ticks_per_bar as int,
            warmup_ticks as int,
        ),
        r.1@.len() == bars_wanted,
        forall|k: int| 0 <= k < bars_wanted ==> (#[trigger] r.1@[k]).0 == k + 1,
        forall|k: int|
            0 <= k < bars_wanted ==> ((#[trigger] r.1@[k]).1 matches Some(b) ==> ohlc_wf(b)),
        r.0 matches Some(b) ==> ohlc_wf(b),
{
    let ghost tpb = ticks_per_bar as int;
    let ghost warm = warmup_ticks as int;
    let tick_count: usize = ticks.len();
    let mut out: Vec<(i32, Option<OHLC>)> = Vec::new();
    let mut all = Acc::Empty;
    let mut i: usize = 0;
    let mut k: usize = 0;
    while k < bars_wanted
        invariant
            ticks_per_bar >= 1,
            bars_wanted < 0x8000_0000,
            ticks@.len() == bars_wanted * ticks_per_bar,
            ticks@.len() == tick_count,
            tpb == ticks_per_bar as int,
            warm == warmup_ticks as int,
            k <= bars_wanted,
            i == k * ticks_per_bar,
            all == acc_after(ticks@.take(i as int)),
            out@ == spec_bars(ticks@, k as int, tpb, warm),
        decreases bars_wanted - k,
    {
        proof {
            assert((k + 1) * tpb == k * tpb + tpb) by (nonlinear_arith);
            assert((k + 1) * tpb <= bars_wanted * tpb) by (nonlinear_arith)
                requires
                    0 <= k + 1 <= bars_wanted,
                    tpb >= 1,
            ;
        }
        let mut acc = Acc::Empty;
        let mut j: usize = 0;
        while j < ticks_per_bar
            invariant
                ticks_per_bar >= 1,
                tpb == ticks_per_bar as int,
                warm == warmup_ticks as int,
                k < bars_wanted,
                j <= ticks_per_bar,
                i == k * ticks_per_bar + j,
                (k + 1) * tpb == k * tpb + tpb,
                (k + 1) * tpb <= bars_wanted * tpb,
                ticks@.len() == bars_wanted * ticks_per_bar,
                ticks@.len() == tick_count,
                all == acc_after(ticks@.take(i as int)),
                acc == acc_after(applied_prefix(ticks@, k as int, tpb, warm, i as int)),
            decreases ticks_per_bar - j,
        {
            let px = ticks[i];
            if i >= warmup_ticks {
                acc.apply(px);
                proof {
                    let start = if k * tpb > warm {
                        k * tpb
                    } else {
                        warm
                    };
                    assert(start <= i as int);
                    assert(applied_prefix(ticks@, k as int, tpb, warm, i as int + 1)
                        =~= applied_prefix(ticks@, k as int, tpb, warm, i as int).push(px));
                    lemma_acc_after_push(
                        applied_prefix(ticks@, k as int, tpb, warm, i as int),
                        px,
                    );
                }
            } else {
                proof {
                    assert(applied_prefix(ticks@, k as int, tpb, warm, i as int + 1)
                        =~= applied_prefix(ticks@, k as int, tpb, warm, i as int));
                }
            }
            all.apply(px);
            proof {
                assert(ticks@.take(i as int + 1) =~= ticks@.take(i as int).push(px));
                lemma_acc_after_push(ticks@.take(i as int), px);
            }
            i = i + 1;
            j = j + 1;
        }
        let idx: i32 = k as i32 + 1;
        out.push((idx, acc.seal()));
        proof {
            assert(acc == acc_after(bar_slice(ticks@, k as int, tpb, warm)));
            assert(out@ =~= spec_bars(ticks@, k as int + 1, tpb, warm));
        }
        k = k + 1;
    }
    proof {
        assert(ticks@.take(i as int) =~= ticks@);
        lemma_acc_after_wf(ticks@);
        assert forall|b: int| 0 <= b < bars_wanted implies ((#[trigger] spec_bars(
            ticks@,
            bars_wanted as int,
            tpb,
            warm,
        )[b]).1 matches Some(bar) ==> ohlc_wf(bar)) by {
            lemma_acc_after_wf(bar_slice(ticks@, b, tpb, warm));
        }
    }
    (all.seal(), out)
}

/// The tick sequence is a clamped walk: it never leaves the floor behind,
/// starts within one cent of `start`, and moves at most one cent per step.
pub open spec fn walk_from(ticks: Seq<i64>, start: int, floor: int) -> bool {
    &&& forall|n: int| 0 <= n < ticks.len() ==> #[trigger] ticks[n] >= floor
    &&& (ticks.len() > 0 ==> start - 1 <= ticks[0] <= start + 1)
    &&& forall|n: int|
        0 < n < ticks.len() ==> ticks[n - 1] - 1 <= #[trigger] ticks[n] <= ticks[n - 1] + 1
}

/// Draws `bars_wanted * ticks_per_bar` ticks from the generator and
/// aggregates them.
///
/// The ticks are random, so the result is pinned only relative to them: some
/// clamped walk from the generator's price explains the output exactly, and
/// the series' length, indices and bar invariant hold whatever was drawn.
pub fn run(
    gen: &mut TickGenerator,
    bars_wanted: usize,
    ticks_per_bar: usize,
    warmup_ticks: usize,
) -> (r: (Option<OHLC>, Vec<(i32, Option<OHLC>)>))
    requires
        old(gen).wf(),
        old(gen).floor > i64::MIN,
        ticks_per_bar >= 1,
        bars_wanted < 0x8000_0000,
        bars_wanted * ticks_per_bar <= usize::MAX,
        old(gen).price + bars_wanted * ticks_per_bar < i64::MAX,
    ensures
        final(gen).wf(),
        final(gen).floor == old(gen).floor,
        exists|ticks: Seq<i64>|
            {
                &&& #[trigger] walk_from(ticks, old(gen).price as int, old(gen).floor as int)
                &&& ticks.len() == bars_wanted * ticks_per_bar
                &&& r.0 == seal_of(acc_after(ticks))
                &&& r.1@ == spec_bars(
                    ticks,
                    bars_wanted as int,
                    ticks_per_bar as int,
                    warmup_ticks as int,
                )
            },
        r.1@.len() == bars_wanted,
        forall|k: int| 0 <= k < bars_wanted ==> (#[trigger] r.1@[k]).0 == k + 1,
        forall|k: int|
            0 <= k < bars_wanted ==> ((#[trigger] r.1@[k]).1 matches Some(b) ==> ohlc_wf(b)),
        r.0 matches Some(b) ==> ohlc_wf(b),
{
    let total: usize = bars_wanted * ticks_per_bar;
    let mut tv: Vec<i64> = Vec::new();
    let mut n: usize = 0;
    while n < total
        invariant
            total == bars_wanted * ticks_per_bar,
            n <= total,
            tv@.len() == n,
            gen.wf(),
            gen.floor == old(gen).floor,
            old(gen).floor > i64::MIN,
            gen.price <= old(gen).price + n,
            old(gen).price + total < i64::MAX,
            n == 0 ==> gen.price == old(gen).price,
            n > 0 ==> tv@.last() == gen.price,
            walk_from(tv@, old(gen).price as int, old(gen).floor as int),
        decreases total - n,
    {
        let ghost prev = tv@;
        let px = gen.next();
        tv.push(px);
        proof {
            assert forall|m: int| 0 <= m < tv@.len() implies #[trigger] tv@[m]
                >= old(gen).floor by {
                if m < prev.len() {
                    assert(tv@[m] == prev[m]);
                }
            }
            assert forall|m: int|
                0 < m < tv@.len() implies tv@[m - 1] - 1 <= #[trigger] tv@[m] <= tv@[m - 1]
                + 1 by {
                if m < prev.len() {
                    assert(tv@[m] == prev[m] && tv@[m - 1] == prev[m - 1]);
                }
            }
        }
        n = n + 1;
    }
    let r = aggregate(&tv, bars_wanted, ticks_per_bar, warmup_ticks);
    proof {
        assert(walk_from(tv@, old(gen).price as int, old(gen).floor as int));
    }
    r
}

/// Builds the chart's data exactly as the host expects it at startup: 200
/// bars of 10000 ticks each, a 500-tick warm-up, a walk starting at 100.00
/// with a floor of 10.00 (prices in cents), plus the all-time summary.
pub fn make_prices() -> (r: (Option<OHLC>, Vec<(i32, Option<OHLC>)>))
    ensures
        exists|ticks: Seq<i64>|
            {
                &&& #[trigger] walk_from(ticks, 10000, 1000)
                &&& ticks.len() == 2_000_000
                &&& r.0 == seal_of(acc_after(ticks))
                &&& r.1@ == spec_bars(ticks, 200, 10000, 500)
            },
        r.1@.len() == 200,
        forall|k: int| 0 <= k < 200 ==> (#[trigger] r.1@[k]).0 == k + 1,
        forall|k: int| 0 <= k < 200 ==> ((#[trigger] r.1@[k]).1 matches Some(b) ==> ohlc_wf(b)),
        r.0 matches Some(b) ==> ohlc_wf(b),
{
    let mut gen = TickGenerator::new(10000, 1000);
    run(&mut gen, 200, 10000, 500)
}

} // verus!
