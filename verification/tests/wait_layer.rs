//! The managed wait layer: immediate returns, counter-driven releases, and
//! counter monotonicity.

use leap::managed::WaitOutcome;
use leap::ControllerRef;
use leap::Event;
use leap::Listener;
use leap::ManagedController;

struct Quiet;

impl Listener for Quiet {}

fn ready(outcome: WaitOutcome) -> bool {
    matches!(outcome, WaitOutcome::Ready)
}

#[test]
fn device_connected_wait_returns_immediately_when_connected() {
    let mut mc: ManagedController<Quiet> = ManagedController::new();
    mc.deliver(Event::Connect);
    let outcome = mc.wait_until_device_connected();
    assert!(ready(outcome));
}

#[test]
fn device_connected_wait_blocks_until_connect_event() {
    let mut mc: ManagedController<Quiet> = ManagedController::new();
    let outcome = mc.wait_until_device_connected();
    let ticket = match outcome {
        WaitOutcome::Ready => panic!("no device is connected yet"),
        WaitOutcome::Pending(t) => t,
    };
    assert!(mc.is_pending(ticket));
    let released = mc.deliver(Event::Frame);
    assert!(released.is_empty());
    assert!(mc.is_pending(ticket));
    let released = mc.deliver(Event::Connect);
    assert_eq!(released, vec![ticket]);
    assert!(!mc.is_pending(ticket));
}

#[test]
fn frame_waiter_released_by_each_delivery() {
    let mut mc: ManagedController<Quiet> = ManagedController::new();
    for _ in 0..5 {
        let ticket = mc.wait_until_frame();
        assert!(mc.is_pending(ticket));
        let released = mc.deliver(Event::Frame);
        assert_eq!(released, vec![ticket]);
        assert!(!mc.is_pending(ticket));
    }
}

#[test]
fn all_frame_waiters_released_by_one_delivery() {
    let mut mc: ManagedController<Quiet> = ManagedController::new();
    let t1 = mc.wait_until_frame();
    let t2 = mc.wait_until_frame();
    let t3 = mc.wait_until_frame();
    let released = mc.deliver(Event::Frame);
    assert_eq!(released, vec![t1, t2, t3]);
}

#[test]
fn frame_waiter_ignores_other_events() {
    let mut mc: ManagedController<Quiet> = ManagedController::new();
    let ticket = mc.wait_until_frame();
    mc.deliver(Event::Images);
    mc.deliver(Event::DeviceChange);
    mc.deliver(Event::Connect);
    assert!(mc.is_pending(ticket));
    let released = mc.deliver(Event::Frame);
    assert_eq!(released, vec![ticket]);
}

#[test]
fn images_waiter_released_by_images_delivery() {
    let mut mc: ManagedController<Quiet> = ManagedController::new();
    let ticket = mc.wait_until_images();
    let released = mc.deliver(Event::Frame);
    assert!(released.is_empty());
    let released = mc.deliver(Event::Images);
    assert_eq!(released, vec![ticket]);
}

#[test]
fn device_change_waiter_released_by_device_change_delivery() {
    let mut mc: ManagedController<Quiet> = ManagedController::new();
    let ticket = mc.wait_until_device_change();
    let released = mc.deliver(Event::Images);
    assert!(released.is_empty());
    let released = mc.deliver(Event::DeviceChange);
    assert_eq!(released, vec![ticket]);
}

#[test]
fn counters_increase_by_exactly_one_per_qualifying_event() {
    let mut mc: ManagedController<Quiet> = ManagedController::new();
    let k0 = mc.counters();
    assert_eq!((k0.frame, k0.images, k0.device_change), (0, 0, 0));
    mc.deliver(Event::Frame);
    let k1 = mc.counters();
    assert_eq!((k1.frame, k1.images, k1.device_change), (1, 0, 0));
    mc.deliver(Event::Frame);
    mc.deliver(Event::Images);
    mc.deliver(Event::Connect);
    mc.deliver(Event::DeviceChange);
    mc.deliver(Event::FocusGained);
    let k2 = mc.counters();
    assert_eq!((k2.frame, k2.images, k2.device_change), (2, 1, 1));
}

#[test]
fn counters_never_decrease() {
    let mut mc: ManagedController<Quiet> = ManagedController::new();
    let events = vec![
        Event::Frame,
        Event::Connect,
        Event::Images,
        Event::Frame,
        Event::DeviceChange,
        Event::Disconnect,
        Event::Images,
    ];
    let mut prev = mc.counters();
    for e in events {
        mc.deliver(e);
        let next = mc.counters();
        assert!(next.frame >= prev.frame);
        assert!(next.images >= prev.images);
        assert!(next.device_change >= prev.device_change);
        prev = next;
    }
}

#[test]
fn level_waits_cover_both_directions() {
    let mut mc: ManagedController<Quiet> = ManagedController::new();
    assert!(ready(mc.wait_until_service_disconnected()));
    assert!(ready(mc.wait_until_device_disconnected()));
    assert!(ready(mc.wait_until_focus_lost()));
    assert!(!ready(mc.wait_until_service_connected()));
    assert!(!ready(mc.wait_until_focus_gained()));
    mc.deliver(Event::ServiceConnect);
    mc.deliver(Event::FocusGained);
    assert!(ready(mc.wait_until_service_connected()));
    assert!(ready(mc.wait_until_focus_gained()));
    assert!(!ready(mc.wait_until_service_disconnected()));
    assert!(!ready(mc.wait_until_focus_lost()));
}

#[test]
fn focus_lost_wait_released_by_focus_lost_event() {
    let mut mc: ManagedController<Quiet> = ManagedController::new();
    mc.deliver(Event::FocusGained);
    let ticket = match mc.wait_until_focus_lost() {
        WaitOutcome::Ready => panic!("focus is held"),
        WaitOutcome::Pending(t) => t,
    };
    let released = mc.deliver(Event::FocusLost);
    assert_eq!(released, vec![ticket]);
}

#[test]
fn releases_come_in_waiting_order() {
    let mut mc: ManagedController<Quiet> = ManagedController::new();
    let t_frame = mc.wait_until_frame();
    let t_conn = match mc.wait_until_device_connected() {
        WaitOutcome::Ready => panic!("no device is connected yet"),
        WaitOutcome::Pending(t) => t,
    };
    let t_frame2 = mc.wait_until_frame();
    mc.deliver(Event::Connect);
    let released = mc.deliver(Event::Frame);
    assert_eq!(released, vec![t_frame, t_frame2]);
    assert!(!mc.is_pending(t_conn));
}

struct CountExits {
    exits: usize,
}

impl Listener for CountExits {
    fn on_exit(&mut self, _controller: &ControllerRef) {
        self.exits += 1;
    }
}

#[test]
fn managed_teardown_exits_listeners_and_keeps_waiters() {
    let mut mc: ManagedController<CountExits> = ManagedController::new();
    mc.add_listener(CountExits { exits: 0 });
    let ticket = mc.wait_until_frame();
    mc.teardown();
    assert!(mc.is_torn_down());
    assert!(mc.is_pending(ticket));
    assert_eq!(mc.controller().listener_at(0).exits, 1);
}
