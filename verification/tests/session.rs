//! Session queries: frame history, policies, gestures, the clock, and
//! timestamps.

use leap::Controller;
use leap::Frame;
use leap::GestureType;
use leap::Listener;
use leap::Policy;
use leap::Timestamp;

struct Quiet;

impl Listener for Quiet {}

fn frame_with_id(id: i64) -> Frame {
    Frame::new(id, Timestamp::from_raw(id * 1000))
}

#[test]
fn frame_at_rejects_ages_above_59() {
    let mut c: Controller<Quiet> = Controller::new();
    for id in 0..100 {
        c.push_frame(frame_with_id(id));
    }
    assert!(c.session().frame_at(59).is_valid());
    assert!(!c.session().frame_at(60).is_valid());
    assert!(!c.session().frame_at(255).is_valid());
}

#[test]
fn frame_at_validity_depends_on_recorded_history() {
    let mut c: Controller<Quiet> = Controller::new();
    for age in 0..60 {
        assert!(!c.session().frame_at(age).is_valid());
    }
    c.push_frame(frame_with_id(7));
    c.push_frame(frame_with_id(8));
    c.push_frame(frame_with_id(9));
    assert!(c.session().frame_at(0).is_valid());
    assert!(c.session().frame_at(2).is_valid());
    assert!(!c.session().frame_at(3).is_valid());
    assert!(!c.session().frame_at(59).is_valid());
}

#[test]
fn frame_at_orders_history_most_recent_first() {
    let mut c: Controller<Quiet> = Controller::new();
    c.push_frame(frame_with_id(1));
    c.push_frame(frame_with_id(2));
    c.push_frame(frame_with_id(3));
    assert_eq!(c.session().frame_at(0).id(), 3);
    assert_eq!(c.session().frame_at(1).id(), 2);
    assert_eq!(c.session().frame_at(2).id(), 1);
    assert_eq!(c.session().frame().id(), 3);
}

#[test]
fn frame_history_keeps_only_sixty_entries() {
    let mut c: Controller<Quiet> = Controller::new();
    for id in 0..61 {
        c.push_frame(frame_with_id(id));
    }
    assert_eq!(c.session().frame_at(0).id(), 60);
    assert_eq!(c.session().frame_at(59).id(), 1);
    assert!(!c.session().frame_at(60).is_valid());
}

#[test]
fn invalid_frame_reports_id_minus_one() {
    let c: Controller<Quiet> = Controller::new();
    let f = c.session().frame();
    assert!(!f.is_valid());
    assert_eq!(f.id(), -1);
}

#[test]
fn frame_accessors_report_what_was_recorded() {
    let f = Frame::new(42, Timestamp::from_raw(5000));
    assert!(f.is_valid());
    assert_eq!(f.id(), 42);
    assert_eq!(f.timestamp().as_raw(), 5000);
}

#[test]
fn policies_toggle_independently() {
    let mut c: Controller<Quiet> = Controller::new();
    let all = [Policy::BackgroundFrames, Policy::Images, Policy::OptimizeHmd];
    for p in all {
        assert!(!c.session().is_policy_set(p));
    }
    c.session_mut().set_policy(Policy::Images);
    assert!(c.session().is_policy_set(Policy::Images));
    assert!(!c.session().is_policy_set(Policy::BackgroundFrames));
    assert!(!c.session().is_policy_set(Policy::OptimizeHmd));
    c.session_mut().set_policy(Policy::BackgroundFrames);
    c.session_mut().clear_policy(Policy::Images);
    assert!(!c.session().is_policy_set(Policy::Images));
    assert!(c.session().is_policy_set(Policy::BackgroundFrames));
}

#[test]
fn gestures_toggle_independently() {
    let mut c: Controller<Quiet> = Controller::new();
    let all = [
        GestureType::Swipe,
        GestureType::Circle,
        GestureType::ScreenTap,
        GestureType::KeyTap,
    ];
    for g in all {
        assert!(!c.session().is_gesture_enabled(g));
    }
    c.session_mut().enable_gesture(GestureType::Circle);
    c.session_mut().enable_gesture(GestureType::KeyTap);
    assert!(c.session().is_gesture_enabled(GestureType::Circle));
    assert!(c.session().is_gesture_enabled(GestureType::KeyTap));
    assert!(!c.session().is_gesture_enabled(GestureType::Swipe));
    assert!(!c.session().is_gesture_enabled(GestureType::ScreenTap));
    c.session_mut().disable_gesture(GestureType::Circle);
    assert!(!c.session().is_gesture_enabled(GestureType::Circle));
    assert!(c.session().is_gesture_enabled(GestureType::KeyTap));
}

#[test]
fn clock_reports_what_the_service_set() {
    let mut c: Controller<Quiet> = Controller::new();
    assert_eq!(c.session().now().as_raw(), 0);
    c.set_now(Timestamp::from_raw(123456));
    assert_eq!(c.session().now().as_raw(), 123456);
}

#[test]
fn timestamp_round_trips_raw_microseconds() {
    let t = Timestamp::from_raw(987654321);
    assert_eq!(t.as_raw(), 987654321);
}

#[test]
fn duration_since_reports_elapsed_microseconds() {
    let earlier = Timestamp::from_raw(500);
    let later = Timestamp::from_raw(1500);
    assert_eq!(later.duration_since(earlier), 1000);
    assert_eq!(later.duration_since(later), 0);
}

#[test]
fn session_updates_do_not_reach_listeners() {
    let mut c: Controller<Quiet> = Controller::new();
    c.add_listener(Quiet);
    c.push_frame(frame_with_id(1));
    c.set_now(Timestamp::from_raw(10));
    c.session_mut().set_policy(Policy::Images);
    assert_eq!(c.listener_count(), 1);
}
