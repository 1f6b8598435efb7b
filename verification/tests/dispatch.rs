//! The dispatch bridge: per-listener ordering, token-targeted delivery, and
//! teardown.

use leap::Controller;
use leap::ControllerRef;
use leap::Event;
use leap::Listener;

struct Recorder {
    calls: Vec<Event>,
}

impl Recorder {
    fn new() -> Recorder {
        Recorder { calls: Vec::new() }
    }
}

impl Listener for Recorder {
    fn on_init(&mut self, _controller: &ControllerRef) {
        self.calls.push(Event::Init);
    }

    fn on_connect(&mut self, _controller: &ControllerRef) {
        self.calls.push(Event::Connect);
    }

    fn on_disconnect(&mut self, _controller: &ControllerRef) {
        self.calls.push(Event::Disconnect);
    }

    fn on_exit(&mut self, _controller: &ControllerRef) {
        self.calls.push(Event::Exit);
    }

    fn on_frame(&mut self, _controller: &ControllerRef) {
        self.calls.push(Event::Frame);
    }

    fn on_focus_gained(&mut self, _controller: &ControllerRef) {
        self.calls.push(Event::FocusGained);
    }

    fn on_focus_lost(&mut self, _controller: &ControllerRef) {
        self.calls.push(Event::FocusLost);
    }

    fn on_service_connect(&mut self, _controller: &ControllerRef) {
        self.calls.push(Event::ServiceConnect);
    }

    fn on_service_disconnect(&mut self, _controller: &ControllerRef) {
        self.calls.push(Event::ServiceDisconnect);
    }

    fn on_device_change(&mut self, _controller: &ControllerRef) {
        self.calls.push(Event::DeviceChange);
    }

    fn on_images(&mut self, _controller: &ControllerRef) {
        self.calls.push(Event::Images);
    }
}

/// A listener that leaves every hook at its default no-op.
struct Quiet;

impl Listener for Quiet {}

#[test]
fn scenario_full_event_sequence() {
    let mut c: Controller<Recorder> = Controller::new();
    c.add_listener(Recorder::new());
    c.deliver(Event::Connect);
    c.deliver(Event::Frame);
    c.deliver(Event::Images);
    c.deliver(Event::Disconnect);
    c.teardown();
    assert_eq!(
        c.listener_at(0).calls,
        vec![
            Event::Init,
            Event::Connect,
            Event::Frame,
            Event::Images,
            Event::Disconnect,
            Event::Exit,
        ]
    );
}

#[test]
fn per_listener_order_preserved() {
    let mut c: Controller<Recorder> = Controller::new();
    c.add_listener(Recorder::new());
    let events = vec![Event::Connect, Event::Frame, Event::Frame, Event::Disconnect];
    c.deliver_all(&events);
    let calls = &c.listener_at(0).calls;
    assert_eq!(
        calls[1..],
        [Event::Connect, Event::Frame, Event::Frame, Event::Disconnect]
    );
}

#[test]
fn on_init_fires_once_at_registration() {
    let mut c: Controller<Recorder> = Controller::new();
    c.deliver(Event::Connect);
    c.add_listener(Recorder::new());
    assert_eq!(c.listener_at(0).calls, vec![Event::Init]);
}

#[test]
fn teardown_notifies_each_listener_exactly_once() {
    let mut c: Controller<Recorder> = Controller::new();
    c.add_listener(Recorder::new());
    c.add_listener(Recorder::new());
    c.deliver(Event::Connect);
    c.teardown();
    assert!(c.is_torn_down());
    for i in 0..c.listener_count() {
        let calls = &c.listener_at(i).calls;
        let exits = calls.iter().filter(|e| **e == Event::Exit).count();
        assert_eq!(exits, 1);
        assert_eq!(*calls.last().unwrap(), Event::Exit);
    }
}

#[test]
fn deliver_to_reaches_only_the_named_listener() {
    let mut c: Controller<Recorder> = Controller::new();
    let t1 = c.add_listener(Recorder::new());
    let t2 = c.add_listener(Recorder::new());
    assert!(c.deliver_to(t2, Event::Frame));
    assert_eq!(c.listener_at(0).calls, vec![Event::Init]);
    assert_eq!(c.listener_at(1).calls, vec![Event::Init, Event::Frame]);
    assert!(c.deliver_to(t1, Event::Images));
    assert_eq!(c.listener_at(0).calls, vec![Event::Init, Event::Images]);
    assert_eq!(c.listener_at(1).calls, vec![Event::Init, Event::Frame]);
}

#[test]
fn deliver_to_unknown_token_reaches_nobody() {
    let mut c: Controller<Recorder> = Controller::new();
    let t1 = c.add_listener(Recorder::new());
    let mut other: Controller<Recorder> = Controller::new();
    other.add_listener(Recorder::new());
    let foreign = other.add_listener(Recorder::new());
    assert_ne!(foreign, t1);
    assert!(!c.deliver_to(foreign, Event::Frame));
    assert_eq!(c.listener_at(0).calls, vec![Event::Init]);
}

#[test]
fn events_reach_every_registered_listener() {
    let mut c: Controller<Recorder> = Controller::new();
    c.add_listener(Recorder::new());
    c.add_listener(Recorder::new());
    c.deliver(Event::FocusGained);
    assert_eq!(c.listener_at(0).calls, vec![Event::Init, Event::FocusGained]);
    assert_eq!(c.listener_at(1).calls, vec![Event::Init, Event::FocusGained]);
}

#[test]
fn listener_count_follows_registrations() {
    let mut c: Controller<Quiet> = Controller::new();
    assert_eq!(c.listener_count(), 0);
    c.add_listener(Quiet);
    c.add_listener(Quiet);
    assert_eq!(c.listener_count(), 2);
}

#[test]
fn flags_follow_connection_events() {
    let mut c: Controller<Quiet> = Controller::new();
    assert!(!c.session().is_service_connected());
    assert!(!c.session().is_connected());
    assert!(!c.session().has_focus());
    c.deliver(Event::ServiceConnect);
    c.deliver(Event::Connect);
    c.deliver(Event::FocusGained);
    assert!(c.session().is_service_connected());
    assert!(c.session().is_connected());
    assert!(c.session().has_focus());
    c.deliver(Event::Disconnect);
    assert!(!c.session().is_connected());
    assert!(c.session().is_service_connected());
    c.deliver(Event::FocusLost);
    assert!(!c.session().has_focus());
    c.deliver(Event::ServiceDisconnect);
    assert!(!c.session().is_service_connected());
}
