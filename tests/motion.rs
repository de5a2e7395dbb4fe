use raycast::camera::{normalize_heading, Camera, Control, Intent, MOVE_RATE, TURN, TURN_RATE};
use raycast::fixed::UNIT;
use raycast::ray::Vec2;

const U: i64 = UNIT;

fn at(x: i64, y: i64) -> Camera {
    Camera::new(Vec2 { x, y })
}

#[test]
fn new_camera_is_at_rest() {
    let c = at(3 * U, 4 * U);
    assert_eq!(c, Camera { pos: Vec2 { x: 3 * U, y: 4 * U }, heading: 0, speed: 0, rotation_speed: 0 });
}

#[test]
fn intents_set_and_clear_rates() {
    let mut c = at(U, U);
    c.apply_intent(Intent::Start(Control::Forward));
    assert_eq!(c.speed, MOVE_RATE);
    c.apply_intent(Intent::Start(Control::Backward));
    assert_eq!(c.speed, -MOVE_RATE);
    c.apply_intent(Intent::Stop(Control::Forward));
    assert_eq!(c.speed, 0);
    c.apply_intent(Intent::Start(Control::RotateLeft));
    assert_eq!(c.rotation_speed, -TURN_RATE);
    c.apply_intent(Intent::Start(Control::RotateRight));
    assert_eq!(c.rotation_speed, TURN_RATE);
    c.apply_intent(Intent::Stop(Control::RotateLeft));
    assert_eq!(c.rotation_speed, 0);
    assert_eq!(c.pos, Vec2 { x: U, y: U });
}

#[test]
fn start_then_stop_leaves_camera_at_rest() {
    let mut c = at(3 * U + U / 2, 3 * U + U / 2);
    c.apply_intent(Intent::Start(Control::Forward));
    c.apply_intent(Intent::Stop(Control::Forward));
    assert_eq!(c.speed, 0);
    c.advance(Vec2 { x: U, y: 0 }, 16_000);
    assert_eq!(c.pos, Vec2 { x: 3 * U + U / 2, y: 3 * U + U / 2 });
    assert_eq!(c.speed, 0);
}

#[test]
fn turning_advances_heading() {
    let mut c = at(U, U);
    c.apply_intent(Intent::Start(Control::RotateRight));
    c.turn(16_000);
    assert_eq!(c.heading, 32_000);
}

#[test]
fn turning_left_from_zero_wraps() {
    let mut c = at(U, U);
    c.apply_intent(Intent::Start(Control::RotateLeft));
    c.turn(16_000);
    assert_eq!(c.heading, TURN - 32_000);
}

#[test]
fn heading_stays_in_range_over_many_frames() {
    let mut c = at(U, U);
    c.apply_intent(Intent::Start(Control::RotateRight));
    for _ in 0..10 {
        c.turn(1_000_000);
        assert!(c.heading >= 0 && c.heading < TURN);
    }
    // Twenty radians in all, past four half-turns of pi.
    assert_eq!(c.heading, 20_000_000 - 3 * TURN);
}

#[test]
fn normalize_heading_examples() {
    assert_eq!(normalize_heading(-1), TURN - 1);
    assert_eq!(normalize_heading(TURN), 0);
    assert_eq!(normalize_heading(3 * TURN + 5), 5);
    assert_eq!(normalize_heading(-3 * TURN - 5), TURN - 5);
    assert_eq!(normalize_heading(12345), 12345);
}

#[test]
fn move_blocked_by_wall_ahead() {
    let mut c = at(6 * U + U / 2, 3 * U + U / 2);
    c.apply_intent(Intent::Start(Control::Forward));
    c.advance(Vec2 { x: U, y: 0 }, 1_000_000);
    assert_eq!(c.pos, Vec2 { x: 6 * U + U / 2, y: 3 * U + U / 2 });
}

#[test]
fn move_forward_in_open_space() {
    let mut c = at(3 * U + U / 2, 3 * U + U / 2);
    c.apply_intent(Intent::Start(Control::Forward));
    c.advance(Vec2 { x: U, y: 0 }, 100_000);
    assert_eq!(c.pos, Vec2 { x: 3 * U + U / 2 + 13_107, y: 3 * U + U / 2 });
}

#[test]
fn move_backward_probes_behind() {
    let mut c = at(U + U / 2, 3 * U + U / 2);
    c.apply_intent(Intent::Start(Control::Backward));
    c.advance(Vec2 { x: U, y: 0 }, 1_000_000);
    assert_eq!(c.pos, Vec2 { x: U + U / 2, y: 3 * U + U / 2 });
    let mut d = at(3 * U + U / 2, 3 * U + U / 2);
    d.apply_intent(Intent::Start(Control::Backward));
    d.advance(Vec2 { x: 0, y: U }, 100_000);
    assert_eq!(d.pos, Vec2 { x: 3 * U + U / 2, y: 3 * U + U / 2 - 13_108 });
}
