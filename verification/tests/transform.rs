use candlechart::rat::{rat_add, rat_div, rat_eqv, rat_mul, rat_of_int, rat_reduced, rat_sub, Rat};
use candlechart::viewport::{fit, ConfigError, DataPoint, ScreenPoint};

fn q(num: i64, den: i64) -> Rat {
    Rat { num, den }
}

fn point(x: Rat, y: Rat) -> DataPoint {
    DataPoint { x, y }
}

#[test]
fn fit_spans_the_screen_price_upward() {
    // 10 bars, prices 90.00..110.00, a 960x960 window.
    let t = fit(10, 9000, 11000, 960, 960).unwrap();
    // Data (1, 90.00) lands in the bottom-left quadrant...
    let bl = t.to_screen(&point(rat_of_int(1), rat_of_int(9000)));
    assert!(rat_eqv(bl.x, rat_of_int(96)));
    assert!(rat_eqv(bl.y, rat_of_int(960)));
    assert!(bl.x.num < 480 * bl.x.den);
    assert!(bl.y.num > 480 * bl.y.den);
    // ...and data (10, 110.00) in the top-right quadrant.
    let tr = t.to_screen(&point(rat_of_int(10), rat_of_int(11000)));
    assert!(rat_eqv(tr.x, rat_of_int(960)));
    assert!(rat_eqv(tr.y, rat_of_int(0)));
    assert!(tr.x.num >= 480 * tr.x.den);
    assert!(tr.y.num < 480 * tr.y.den);
}

#[test]
fn fit_rejects_degenerate_configurations() {
    assert_eq!(fit(0, 9000, 11000, 960, 960), Err(ConfigError::NoBars));
    assert_eq!(fit(10, 11000, 11000, 960, 960), Err(ConfigError::EmptyPriceRange));
    assert_eq!(fit(10, 12000, 11000, 960, 960), Err(ConfigError::EmptyPriceRange));
    assert_eq!(fit(10, 9000, 11000, 0, 960), Err(ConfigError::EmptyScreen));
    assert_eq!(fit(10, 9000, 11000, 960, -5), Err(ConfigError::EmptyScreen));
}

#[test]
fn to_data_inverts_to_screen() {
    let t = fit(10, 9000, 11000, 960, 960).unwrap();
    // An integer point and a fractional one.
    for p in [
        point(rat_of_int(3), rat_of_int(9500)),
        point(q(7, 2), q(10001, 3)),
        point(q(-5, 4), rat_of_int(12345)),
    ] {
        let s = t.to_screen(&p);
        let back = t.to_data(&s);
        assert!(rat_eqv(back.x, p.x));
        assert!(rat_eqv(back.y, p.y));
    }
}

#[test]
fn to_data_then_to_screen_returns_the_pixel() {
    let t = fit(10, 9000, 11000, 960, 960).unwrap();
    let s = ScreenPoint { x: rat_of_int(123), y: rat_of_int(456) };
    let p = t.to_data(&s);
    let back = t.to_screen(&p);
    assert!(rat_eqv(back.x, s.x));
    assert!(rat_eqv(back.y, s.y));
}

#[test]
fn pan_translates_every_point_exactly() {
    let mut t = fit(10, 9000, 11000, 960, 960).unwrap();
    let p = point(q(7, 3), rat_of_int(10101));
    let before = t.to_screen(&p);
    t.pan(rat_of_int(5), rat_of_int(-7));
    let after = t.to_screen(&p);
    let expect_x = Rat { num: before.x.num + 5 * before.x.den, den: before.x.den };
    let expect_y = Rat { num: before.y.num - 7 * before.y.den, den: before.y.den };
    assert!(rat_eqv(after.x, expect_x));
    assert!(rat_eqv(after.y, expect_y));
    // The scales are untouched.
    assert_eq!(t.scale_x, q(960, 10));
    assert_eq!(t.scale_y, q(-960, 2000));
}

#[test]
fn zoom_to_keeps_the_anchor_still() {
    let mut t = fit(10, 9000, 11000, 960, 960).unwrap();
    let anchor = point(rat_of_int(5), rat_of_int(10000));
    let before = t.to_screen(&anchor);
    t.zoom_to(&anchor, q(300, 1), q(-2, 1));
    let after = t.to_screen(&anchor);
    assert!(rat_eqv(after.x, before.x));
    assert!(rat_eqv(after.y, before.y));
    assert_eq!(t.scale_x, q(300, 1));
    assert_eq!(t.scale_y, q(-2, 1));
    // A different point did move.
    let other = point(rat_of_int(6), rat_of_int(10000));
    let moved = t.to_screen(&other);
    let was = fit(10, 9000, 11000, 960, 960).unwrap().to_screen(&other);
    assert!(!rat_eqv(moved.x, was.x));
}

#[test]
fn rezoom_at_pins_the_anchor_to_the_pixel() {
    let mut t = fit(10, 9000, 11000, 960, 960).unwrap();
    let anchor = point(rat_of_int(5), rat_of_int(10000));
    t.rezoom_at(480, 480, &anchor, q(200, 1), q(-3, 1));
    let s = t.to_screen(&anchor);
    assert!(rat_eqv(s.x, rat_of_int(480)));
    assert!(rat_eqv(s.y, rat_of_int(480)));
}

#[test]
fn rational_equivalence_is_by_value() {
    assert!(rat_eqv(q(1, 2), q(3, 6)));
    assert!(rat_eqv(q(-4, 8), q(-1, 2)));
    assert!(!rat_eqv(q(1, 2), q(2, 3)));
    assert!(rat_eqv(q(0, 5), q(0, 9)));
}

#[test]
fn reduction_reaches_lowest_terms() {
    assert_eq!(rat_reduced(q(6, 4)), q(3, 2));
    assert_eq!(rat_reduced(q(-9600000, 1920000)), q(-5, 1));
    assert_eq!(rat_reduced(q(0, 7)), q(0, 1));
    assert_eq!(rat_reduced(q(7, 13)), q(7, 13));
}

#[test]
fn rational_arithmetic_is_exact() {
    // 1/2 + 1/3 == 5/6, computed exactly.
    assert!(rat_eqv(rat_add(q(1, 2), q(1, 3)), q(5, 6)));
    assert!(rat_eqv(rat_sub(q(1, 2), q(1, 3)), q(1, 6)));
    assert!(rat_eqv(rat_mul(q(2, 3), q(-9, 4)), q(-3, 2)));
    // Dividing by a negative keeps the denominator positive.
    let r = rat_div(q(1, 2), q(-3, 4));
    assert!(r.den > 0);
    assert!(rat_eqv(r, q(-2, 3)));
}
