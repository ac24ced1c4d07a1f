use candlechart::controller::{InputEvent, InteractionController, InteractionState};
use candlechart::rat::{rat_eqv, rat_of_int, Rat};
use candlechart::viewport::{fit, DataPoint};

fn setup() -> (InteractionController, candlechart::viewport::ViewportTransform) {
    let t = fit(10, 9000, 11000, 960, 960).unwrap();
    let c = InteractionController::new(960, 960, 10);
    (c, t)
}

#[test]
fn pan_gesture_tracks_the_pointer() {
    let (mut c, mut t) = setup();
    c.handle_event(&mut t, InputEvent::PrimaryDown(100, 100));
    assert!(c.state.is_pan());
    c.handle_event(&mut t, InputEvent::PointerMove(110, 120));
    // The origin follows the pointer: it started at (0, 5280).
    assert!(rat_eqv(t.origin_x, rat_of_int(10)));
    assert!(rat_eqv(t.origin_y, rat_of_int(5300)));
    // A second move is measured from the drag origin, not the last move.
    c.handle_event(&mut t, InputEvent::PointerMove(90, 100));
    assert!(rat_eqv(t.origin_x, rat_of_int(-10)));
    assert!(rat_eqv(t.origin_y, rat_of_int(5280)));
    c.handle_event(&mut t, InputEvent::PrimaryUp);
    assert!(matches!(c.state, InteractionState::Idle));
}

#[test]
fn zoom_gesture_keeps_the_anchor_under_the_cursor() {
    let (mut c, mut t) = setup();
    // Pixel (480, 480) shows the data point (5, 100.00).
    let anchor = DataPoint { x: rat_of_int(5), y: rat_of_int(10000) };
    let before = t.to_screen(&anchor);
    assert!(rat_eqv(before.x, rat_of_int(480)));
    assert!(rat_eqv(before.y, rat_of_int(480)));
    c.handle_event(&mut t, InputEvent::SecondaryDown(480, 480));
    assert!(c.state.is_zoom());
    // Three different drag positions within the same gesture.
    for (x, y) in [(500, 500), (520, 470), (450, 510)] {
        c.handle_event(&mut t, InputEvent::PointerMove(x, y));
        let s = t.to_screen(&anchor);
        assert!(rat_eqv(s.x, rat_of_int(480)));
        assert!(rat_eqv(s.y, rat_of_int(480)));
    }
    // The scales did change while the anchor stood still.
    assert!(!rat_eqv(t.scale_x, Rat { num: 960, den: 10 }));
    c.handle_event(&mut t, InputEvent::SecondaryUp);
    assert!(matches!(c.state, InteractionState::Idle));
}

#[test]
fn zoom_to_zero_scale_is_ignored() {
    let (mut c, mut t) = setup();
    c.handle_event(&mut t, InputEvent::SecondaryDown(480, 480));
    let before = t;
    // This displacement would drive the x scale to exactly zero:
    // 96 + 10 * (x - 480) / 960 == 0 at x == -8736.
    c.handle_event(&mut t, InputEvent::PointerMove(-8736, 481));
    assert_eq!(t, before);
    // A harmless move still works afterwards.
    c.handle_event(&mut t, InputEvent::PointerMove(490, 490));
    assert_ne!(t, before);
}

#[test]
fn events_in_the_wrong_state_are_ignored() {
    let (mut c, mut t) = setup();
    let fresh = t;
    // Nothing to release or move while idle.
    c.handle_event(&mut t, InputEvent::PrimaryUp);
    c.handle_event(&mut t, InputEvent::SecondaryUp);
    c.handle_event(&mut t, InputEvent::PointerMove(5, 5));
    c.handle_event(&mut t, InputEvent::Quit);
    assert!(matches!(c.state, InteractionState::Idle));
    assert_eq!(t, fresh);
    // While panning, the zoom button changes nothing.
    c.handle_event(&mut t, InputEvent::PrimaryDown(10, 10));
    c.handle_event(&mut t, InputEvent::SecondaryDown(20, 20));
    c.handle_event(&mut t, InputEvent::SecondaryUp);
    assert!(c.state.is_pan());
    // And the matching release ends only the pan.
    c.handle_event(&mut t, InputEvent::PrimaryUp);
    assert!(matches!(c.state, InteractionState::Idle));
    // While zooming, the pan button changes nothing.
    c.handle_event(&mut t, InputEvent::SecondaryDown(480, 480));
    c.handle_event(&mut t, InputEvent::PrimaryDown(30, 30));
    c.handle_event(&mut t, InputEvent::PrimaryUp);
    assert!(c.state.is_zoom());
}

#[test]
fn secondary_down_records_the_anchor_before_any_rescale() {
    let (mut c, mut t) = setup();
    let expected = t.to_data(&candlechart::viewport::ScreenPoint {
        x: rat_of_int(300),
        y: rat_of_int(200),
    });
    c.handle_event(&mut t, InputEvent::SecondaryDown(300, 200));
    match c.state {
        InteractionState::Zooming { anchor, start_x, start_y, base_scale_x, base_scale_y } => {
            assert!(rat_eqv(anchor.x, expected.x));
            assert!(rat_eqv(anchor.y, expected.y));
            assert_eq!(start_x, 300);
            assert_eq!(start_y, 200);
            assert_eq!(base_scale_x, t.scale_x);
            assert_eq!(base_scale_y, t.scale_y);
        },
        _ => panic!("expected a zoom gesture"),
    }
}
