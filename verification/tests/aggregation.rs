use candlechart::bars::{aggregate, make_prices, run, Acc, OHLC};
use candlechart::ticks::{delta_for, max, step_price, TickGenerator};

fn bar(open: i64, high: i64, low: i64, close: i64) -> OHLC {
    OHLC { open, high, low, close }
}

#[test]
fn constant_ticks_make_flat_bars() {
    // A tick source that always returns 100.00 yields bars of all 10000s.
    let ticks = vec![10000i64; 8];
    let (all, bars) = aggregate(&ticks, 2, 4, 0);
    assert_eq!(all, Some(bar(10000, 10000, 10000, 10000)));
    assert_eq!(bars.len(), 2);
    for (k, (idx, b)) in bars.iter().enumerate() {
        assert_eq!(*idx, k as i32 + 1);
        assert_eq!(*b, Some(bar(10000, 10000, 10000, 10000)));
    }
}

#[test]
fn single_bar_open_high_low_close() {
    // [100, 105, 98, 102] into one bar of four ticks, no warm-up.
    let ticks = vec![10000i64, 10500, 9800, 10200];
    let (all, bars) = aggregate(&ticks, 1, 4, 0);
    assert_eq!(bars.len(), 1);
    assert_eq!(bars[0].0, 1);
    assert_eq!(bars[0].1, Some(bar(10000, 10500, 9800, 10200)));
    assert_eq!(all, Some(bar(10000, 10500, 9800, 10200)));
}

#[test]
fn cardinality_and_indices() {
    let ticks: Vec<i64> = (0..15).map(|n| 10000 + (n % 4)).collect();
    let (_, bars) = aggregate(&ticks, 5, 3, 0);
    assert_eq!(bars.len(), 5);
    for (k, (idx, b)) in bars.iter().enumerate() {
        assert_eq!(*idx, k as i32 + 1);
        assert!(b.is_some());
    }
}

#[test]
fn warmup_bar_is_absent_but_counted_all_time() {
    // Both ticks of the first bar fall inside the warm-up window: that bar
    // is None, while the all-time summary still saw every tick.
    let ticks = vec![9000i64, 12000, 10000, 10100];
    let (all, bars) = aggregate(&ticks, 2, 2, 2);
    assert_eq!(bars.len(), 2);
    assert_eq!(bars[0].1, None);
    assert_eq!(bars[1].1, Some(bar(10000, 10100, 10000, 10100)));
    assert_eq!(all, Some(bar(9000, 12000, 9000, 10100)));
}

#[test]
fn warmup_splitting_a_bar() {
    // Warm-up ends mid-bar: the bar opens at its first applied tick.
    let ticks = vec![9000i64, 10000, 10200, 10100];
    let (all, bars) = aggregate(&ticks, 1, 4, 1);
    assert_eq!(bars[0].1, Some(bar(10000, 10200, 10000, 10100)));
    assert_eq!(all, Some(bar(9000, 10200, 9000, 10100)));
}

#[test]
fn sealed_bars_satisfy_ohlc_invariant() {
    // The original chart's full run: 200 bars of 10000 random ticks, 500
    // warm-up ticks. Every sealed bar must be internally ordered.
    let (all, bars) = make_prices();
    assert_eq!(bars.len(), 200);
    for (k, (idx, b)) in bars.iter().enumerate() {
        assert_eq!(*idx, k as i32 + 1);
        if let Some(b) = b {
            assert!(b.low <= b.open && b.open <= b.high);
            assert!(b.low <= b.close && b.close <= b.high);
            assert!(b.low <= b.high);
            assert!(b.low >= 1000);
        }
    }
    let all = all.expect("two million ticks give a summary");
    assert!(all.low <= all.open && all.open <= all.high);
    assert!(all.low >= 1000);
}

#[test]
fn run_draws_exactly_the_requested_bars() {
    let mut gen = TickGenerator::new(10000, 1000);
    let (all, bars) = run(&mut gen, 3, 5, 0);
    assert_eq!(bars.len(), 3);
    assert!(all.is_some());
    for (k, (idx, b)) in bars.iter().enumerate() {
        assert_eq!(*idx, k as i32 + 1);
        let b = b.expect("no warm-up, so every bar saw ticks");
        assert!(b.low <= b.open && b.open <= b.high);
        assert!(b.low <= b.close && b.close <= b.high);
    }
}

#[test]
fn tick_generator_walks_within_one_cent_of_itself() {
    // Would fail if the drawn choice left 0..7 or the clamp were missing.
    let mut gen = TickGenerator::new(1001, 1000);
    let mut prev = 1001i64;
    for _ in 0..10000 {
        let px = gen.next();
        assert!(px >= 1000);
        assert!((px - prev).abs() <= 1);
        prev = px;
    }
}

#[test]
fn accumulator_applies_ticks_in_order() {
    let mut acc = Acc::Empty;
    assert_eq!(acc.seal(), None);
    acc.apply(10000);
    acc.apply(9900);
    acc.apply(10050);
    let b = acc.seal().unwrap();
    assert_eq!(b, bar(10000, 10050, 9900, 10050));
}

#[test]
fn step_price_clamps_at_floor() {
    assert_eq!(step_price(1000, -1, 1000), 1000);
    assert_eq!(step_price(1001, -1, 1000), 1000);
    assert_eq!(step_price(1000, 0, 1000), 1000);
    assert_eq!(step_price(1000, 1, 1000), 1001);
    assert_eq!(step_price(10000, -1, 1000), 9999);
}

#[test]
fn max_picks_the_larger() {
    assert_eq!(max(3, 7), 7);
    assert_eq!(max(7, 3), 7);
    assert_eq!(max(-5, -9), -5);
    assert_eq!(max(4, 4), 4);
}

#[test]
fn delta_distribution_is_the_biased_set() {
    let table: Vec<i64> = (0..7).map(delta_for).collect();
    assert_eq!(table, vec![-1, -1, 0, 0, 0, 1, 1]);
}

#[test]
fn zero_bars_yield_an_empty_series() {
    let ticks: Vec<i64> = vec![];
    let (all, bars) = aggregate(&ticks, 0, 4, 0);
    assert_eq!(all, None);
    assert!(bars.is_empty());
}

#[test]
fn warmup_covering_everything_leaves_only_absent_bars() {
    let ticks = vec![10000i64, 10100, 10200, 10300];
    let (all, bars) = aggregate(&ticks, 2, 2, 100);
    assert_eq!(bars, vec![(1, None), (2, None)]);
    assert_eq!(all, Some(bar(10000, 10300, 10000, 10300)));
}
