//! A model of a hand-tracking device's event interface: a controller that owns
//! registered listeners, a dispatch bridge that hands each event of the device
//! service to every listener in order, and a wait layer that turns events into
//! blocking conditions driven by monotonic counters.

pub mod image;
pub mod listener;
pub mod managed;
pub mod timestamp;

pub use listener::Event;
pub use listener::Listener;
pub use managed::ManagedController;
pub use timestamp::Timestamp;

use vstd::prelude::*;

verus! {

/// A device or service policy. Policies can be enabled or disabled via
/// [`ControllerRef::set_policy`] and [`ControllerRef::clear_policy`].
#[derive(Debug, Clone, Copy, PartialEq, Eq, Structural)]
#[non_exhaustive]
pub enum Policy {
    /// Receive frames even when the application does not have focus.
    BackgroundFrames,
    /// Receive raw camera images.
    Images,
    /// Optimize tracking for a head-mounted device.
    OptimizeHmd,
}

/// A kind of gesture the tracking service can detect and report.
#[derive(Debug, Clone, Copy, PartialEq, Eq, Structural)]
#[non_exhaustive]
pub enum GestureType {
    /// Horizontal swiping movement of a hand, with fingers extended.
    Swipe,
    /// Movement of a single finger in a circle.
    Circle,
    /// A tapping movement parallel to the device.
    ScreenTap,
    /// A tapping movement towards the device.
    KeyTap,
}

/// A state describing the progression of a gesture.
#[derive(Debug, Clone, Copy, PartialEq, Eq, Structural)]
#[non_exhaustive]
pub enum GestureState {
    /// The gesture is starting just now.
    Start,
    /// A gesture that started earlier is continuing.
    Update,
    /// A gesture that started earlier is ending.
    Stop,
}

/// A frame of tracking data. An invalid frame reports that no data exists for
/// the requested point of the history.
#[derive(Debug, Clone, Copy, PartialEq, Eq, Structural)]
pub struct Frame {
    valid: bool,
    id: i64,
    timestamp: Timestamp,
}

impl Frame {
    /// Whether this frame contains valid data.
    pub closed spec fn spec_valid(&self) -> bool {
        self.valid
    }

    /// The frame's unique ID.
    pub closed spec fn spec_id(&self) -> i64 {
        self.id
    }

    /// The timestamp at which this frame was captured.
    pub closed spec fn spec_timestamp(&self) -> Timestamp {
        self.timestamp
    }

    /// Builds a valid frame from its ID and capture timestamp.
    pub fn new(id: i64, timestamp: Timestamp) -> (f: Frame)
        ensures
            f.spec_valid(),
            f.spec_id() == id,
            f.spec_timestamp() == timestamp,
    {
        Frame { valid: true, id, timestamp }
    }

    /// Builds the invalid frame, whose ID is reported as -1.
    pub fn invalid() -> (f: Frame)
        ensures
            !f.spec_valid(),
            f.spec_id() == -1i64,
    {
        Frame { valid: false, id: -1, timestamp: Timestamp::from_raw(0) }
    }

    /// Returns the frame's unique ID, or -1 for an invalid frame.
    pub fn id(&self) -> (r: i64)
        ensures
            r == self.spec_id(),
    {
        self.id
    }

    /// Returns the timestamp at which this frame was captured.
    pub fn timestamp(&self) -> (r: Timestamp)
        ensures
            r == self.spec_timestamp(),
    {
        self.timestamp
    }

    /// Returns whether this frame contains valid data.
    pub fn is_valid(&self) -> (r: bool)
        ensures
            r == self.spec_valid(),
    {
        self.valid
    }
}

/// The level-triggered part of the session state: the three boolean
/// properties that connect- and focus-events flip.
pub struct FlagsView {
    /// Whether the connection to the tracking service is established.
    pub service_connected: bool,
    /// Whether a tracking device is connected.
    pub device_connected: bool,
    /// Whether the application has device focus.
    pub has_focus: bool,
}

/// How a single event transitions the session flags: connect- and
/// focus-events flip the matching flag, every other event leaves them alone.
pub open spec fn flags_step(f: FlagsView, e: Event) -> FlagsView {
    match e {
        Event::ServiceConnect => FlagsView { service_connected: true, ..f },
        Event::ServiceDisconnect => FlagsView { service_connected: false, ..f },
        Event::Connect => FlagsView { device_connected: true, ..f },
        Event::Disconnect => FlagsView { device_connected: false, ..f },
        Event::FocusGained => FlagsView { has_focus: true, ..f },
        Event::FocusLost => FlagsView { has_focus: false, ..f },
        _ => f,
    }
}

/// The session flags after a whole sequence of events, applied in order.
pub open spec fn flags_after(f: FlagsView, es: Seq<Event>) -> FlagsView
    decreases es.len(),
{
    if es.len() == 0 {
        f
    } else {
        flags_step(flags_after(f, es.drop_last()), es.last())
    }
}

/// The number of frames of history the session retains.
pub open spec fn frame_history_capacity() -> int {
    60
}

/// The frame history after one new frame arrives: the new frame is the most
/// recent entry, and the oldest entry beyond the retained history is dropped.
pub open spec fn frames_after_push(frames: Seq<Frame>, frame: Frame) -> Seq<Frame> {
    let grown = seq![frame] + frames;
    if grown.len() <= frame_history_capacity() {
        grown
    } else {
        grown.take(frame_history_capacity())
    }
}

/// The session state a controller exposes to queries: connection flags,
/// enabled policies and gestures, the frame history, the current images and
/// the service clock.
pub struct ControllerRef {
    service_connected: bool,
    device_connected: bool,
    focus: bool,
    policy_background_frames: bool,
    policy_images: bool,
    policy_optimize_hmd: bool,
    gesture_swipe: bool,
    gesture_circle: bool,
    gesture_screen_tap: bool,
    gesture_key_tap: bool,
    frames: Vec<Frame>,
    images: image::ImageList,
    clock: Timestamp,
}

impl ControllerRef {
    /// The level-triggered session flags.
    pub closed spec fn flags(&self) -> FlagsView {
        FlagsView {
            service_connected: self.service_connected,
            device_connected: self.device_connected,
            has_focus: self.focus,
        }
    }

    /// Whether the given policy is currently enabled.
    pub closed spec fn spec_policy(&self, policy: Policy) -> bool {
        match policy {
            Policy::BackgroundFrames => self.policy_background_frames,
            Policy::Images => self.policy_images,
            Policy::OptimizeHmd => self.policy_optimize_hmd,
        }
    }

    /// Whether detection of the given gesture is currently enabled.
    pub closed spec fn spec_gesture(&self, gesture: GestureType) -> bool {
        match gesture {
            GestureType::Swipe => self.gesture_swipe,
            GestureType::Circle => self.gesture_circle,
            GestureType::ScreenTap => self.gesture_screen_tap,
            GestureType::KeyTap => self.gesture_key_tap,
        }
    }

    /// The retained frame history, most recent first.
    pub closed spec fn spec_frames(&self) -> Seq<Frame> {
        self.frames@
    }

    /// The current set of camera images.
    pub closed spec fn spec_images(&self) -> Seq<image::Image> {
        self.images@
    }

    /// The current service clock reading.
    pub closed spec fn spec_now(&self) -> Timestamp {
        self.clock
    }

    /// A session is well formed when its history holds at most the retained
    /// number of frames, all of them valid.
    pub open spec fn wf(&self) -> bool {
        &&& self.spec_frames().len() <= frame_history_capacity()
        &&& forall|i: int| 0 <= i < self.spec_frames().len() ==> (#[trigger] self.spec_frames()[i]).spec_valid()
    }

    /// Everything of two sessions except the level-triggered flags is the
    /// same: policies, gestures, frame history, images and clock.
    pub open spec fn same_session_data(a: ControllerRef, b: ControllerRef) -> bool {
        &&& forall|p: Policy| a.spec_policy(p) == b.spec_policy(p)
        &&& forall|g: GestureType| a.spec_gesture(g) == b.spec_gesture(g)
        &&& a.spec_frames() == b.spec_frames()
        &&& a.spec_images() == b.spec_images()
        &&& a.spec_now() == b.spec_now()
    }

    /// Returns whether the connection to the tracking service is established.
    pub fn is_service_connected(&self) -> (r: bool)
        ensures
            r == self.flags().service_connected,
    {
        self.service_connected
    }

    /// Returns whether a tracking device is connected.
    pub fn is_connected(&self) -> (r: bool)
        ensures
            r == self.flags().device_connected,
    {
        self.device_connected
    }

    /// Returns whether this application currently has device focus.
    pub fn has_focus(&self) -> (r: bool)
        ensures
            r == self.flags().has_focus,
    {
        self.focus
    }

    /// Enables a device or service policy.
    pub fn set_policy(&mut self, policy: Policy)
        ensures
            forall|q: Policy| final(self).spec_policy(q) == (q == policy || old(self).spec_policy(q)),
            final(self).flags() == old(self).flags(),
            forall|g: GestureType| final(self).spec_gesture(g) == old(self).spec_gesture(g),
            final(self).spec_frames() == old(self).spec_frames(),
            final(self).spec_images() == old(self).spec_images(),
            final(self).spec_now() == old(self).spec_now(),
    {
        match policy {
            Policy::BackgroundFrames => self.policy_background_frames = true,
            Policy::Images => self.policy_images = true,
            Policy::OptimizeHmd => self.policy_optimize_hmd = true,
        }
    }

    /// Disables a device or service policy.
    pub fn clear_policy(&mut self, policy: Policy)
        ensures
            forall|q: Policy| final(self).spec_policy(q) == (q != policy && old(self).spec_policy(q)),
            final(self).flags() == old(self).flags(),
            forall|g: GestureType| final(self).spec_gesture(g) == old(self).spec_gesture(g),
            final(self).spec_frames() == old(self).spec_frames(),
            final(self).spec_images() == old(self).spec_images(),
            final(self).spec_now() == old(self).spec_now(),
    {
        match policy {
            Policy::BackgroundFrames => self.policy_background_frames = false,
            Policy::Images => self.policy_images = false,
            Policy::OptimizeHmd => self.policy_optimize_hmd = false,
        }
    }

    /// Returns whether a device or service policy is currently enabled.
    pub fn is_policy_set(&self, policy: Policy) -> (r: bool)
        ensures
            r == self.spec_policy(policy),
    {
        match policy {
            Policy::BackgroundFrames => self.policy_background_frames,
            Policy::Images => self.policy_images,
            Policy::OptimizeHmd => self.policy_optimize_hmd,
        }
    }

    /// Enables detection and reporting of a gesture.
    pub fn enable_gesture(&mut self, gesture: GestureType)
        ensures
            forall|h: GestureType| final(self).spec_gesture(h) == (h == gesture || old(self).spec_gesture(h)),
            final(self).flags() == old(self).flags(),
            forall|p: Policy| final(self).spec_policy(p) == old(self).spec_policy(p),
            final(self).spec_frames() == old(self).spec_frames(),
            final(self).spec_images() == old(self).spec_images(),
            final(self).spec_now() == old(self).spec_now(),
    {
        match gesture {
            GestureType::Swipe => self.gesture_swipe = true,
            GestureType::Circle => self.gesture_circle = true,
            GestureType::ScreenTap => self.gesture_screen_tap = true,
            GestureType::KeyTap => self.gesture_key_tap = true,
        }
    }

    /// Disables detection and reporting of a gesture.
    pub fn disable_gesture(&mut self, gesture: GestureType)
        ensures
            forall|h: GestureType| final(self).spec_gesture(h) == (h != gesture && old(self).spec_gesture(h)),
            final(self).flags() == old(self).flags(),
            forall|p: Policy| final(self).spec_policy(p) == old(self).spec_policy(p),
            final(self).spec_frames() == old(self).spec_frames(),
            final(self).spec_images() == old(self).spec_images(),
            final(self).spec_now() == old(self).spec_now(),
    {
        match gesture {
            GestureType::Swipe => self.gesture_swipe = false,
            GestureType::Circle => self.gesture_circle = false,
            GestureType::ScreenTap => self.gesture_screen_tap = false,
            GestureType::KeyTap => self.gesture_key_tap = false,
        }
    }

    /// Returns whether detection and reporting of a gesture is enabled.
    pub fn is_gesture_enabled(&self, gesture: GestureType) -> (r: bool)
        ensures
            r == self.spec_gesture(gesture),
    {
        match gesture {
            GestureType::Swipe => self.gesture_swipe,
            GestureType::Circle => self.gesture_circle,
            GestureType::ScreenTap => self.gesture_screen_tap,
            GestureType::KeyTap => self.gesture_key_tap,
        }
    }

    /// Returns the current service clock reading.
    pub fn now(&self) -> (t: Timestamp)
        ensures
            t == self.spec_now(),
    {
        self.clock
    }

    /// Returns the most recent frame of tracking data, or an invalid frame if
    /// no frame has been recorded yet.
    pub fn frame(&self) -> (f: Frame)
        requires
            self.wf(),
        ensures
            self.spec_frames().len() > 0 ==> f == self.spec_frames()[0] && f.spec_valid(),
            self.spec_frames().len() == 0 ==> !f.spec_valid(),
    {
        self.frame_at(0)
    }

    /// Returns a frame of tracking data of the specified age: 0 selects the
    /// most recent frame, 1 the frame before that, and so on.
    ///
    /// The maximum age is 59. Asking for an older frame, or for more history
    /// than has been recorded, returns an invalid frame rather than an error.
    pub fn frame_at(&self, history: u8) -> (f: Frame)
        requires
            self.wf(),
        ensures
            history <= 59 && history < self.spec_frames().len() ==> {
                &&& f == self.spec_frames()[history as int]
                &&& f.spec_valid()
            },
            !(history <= 59 && history < self.spec_frames().len()) ==> !f.spec_valid(),
    {
        if history <= 59 && (history as usize) < self.frames.len() {
            self.frames[history as usize]
        } else {
            Frame::invalid()
        }
    }

    /// Returns the most recent set of captured images.
    pub fn images(&self) -> (l: &image::ImageList)
        ensures
            l@ == self.spec_images(),
    {
        &self.images
    }
}

/// A token identifying one listener registration on a controller. Events can
/// be addressed to the exact registered listener through it.
#[derive(Debug, Clone, Copy, PartialEq, Eq, Structural)]
pub struct ListenerToken {
    id: u64,
}

impl ListenerToken {
    /// The numeric identity of the registration.
    pub closed spec fn spec_id(&self) -> u64 {
        self.id
    }
}

/// One registration held by a controller: the listener itself, its stable
/// identity token, and the sequence of events delivered to it so far.
struct ListenerSlot<L> {
    token: u64,
    listener: L,
    history: Ghost<Seq<Event>>,
}

/// Invokes the handler matching the event on one registered listener and
/// records the delivery in the slot's history.
fn dispatch_slot<L: Listener>(slot: &mut ListenerSlot<L>, state: &ControllerRef, e: Event)
    ensures
        final(slot).token == old(slot).token,
        final(slot).history@ == old(slot).history@.push(e),
{
    match e {
        Event::Init => slot.listener.on_init(state),
        Event::Connect => slot.listener.on_connect(state),
        Event::Disconnect => slot.listener.on_disconnect(state),
        Event::Exit => slot.listener.on_exit(state),
        Event::Frame => slot.listener.on_frame(state),
        Event::FocusGained => slot.listener.on_focus_gained(state),
        Event::FocusLost => slot.listener.on_focus_lost(state),
        Event::ServiceConnect => slot.listener.on_service_connect(state),
        Event::ServiceDisconnect => slot.listener.on_service_disconnect(state),
        Event::DeviceChange => slot.listener.on_device_change(state),
        Event::Images => slot.listener.on_images(state),
    }
    slot.history = Ghost(slot.history@.push(e));
}

/// A registry whose tokens and next token are unchanged is still well formed.
proof fn lemma_registry_preserved<L: Listener>(pre: &Controller<L>, post: &Controller<L>)
    requires
        pre.registry_wf(),
        post.tokens() == pre.tokens(),
        post.spec_next_token() == pre.spec_next_token(),
    ensures
        post.registry_wf(),
{
    assert forall|i: int, j: int| 0 <= i < j < post.tokens().len() implies
        post.tokens()[i] != post.tokens()[j] by {
        assert(pre.tokens()[i] != pre.tokens()[j]);
    }
    assert forall|i: int| 0 <= i < post.tokens().len() implies
        #[trigger] post.tokens()[i] < post.spec_next_token() by {
        assert(pre.tokens()[i] < pre.spec_next_token());
    }
}

/// A connection to the tracking service: the session state, and the
/// registered listeners that the dispatch bridge notifies of every event.
///
/// The service itself is an outside collaborator; whatever runs the device
/// loop reports each occurrence by calling [`Controller::deliver`] (or
/// [`Controller::deliver_to`] for a single registration) and records new data
/// through [`Controller::push_frame`], [`Controller::set_images`] and
/// [`Controller::set_now`].
pub struct Controller<L: Listener> {
    state: ControllerRef,
    slots: Vec<ListenerSlot<L>>,
    next_token: u64,
    torn_down: bool,
}

impl<L: Listener> Controller<L> {
    /// The session state.
    pub closed spec fn spec_session(&self) -> ControllerRef {
        self.state
    }

    /// The events delivered to each registered listener, in delivery order,
    /// one sequence per registration.
    pub closed spec fn histories(&self) -> Seq<Seq<Event>> {
        self.slots@.map_values(|s: ListenerSlot<L>| s.history@)
    }

    /// The identity token of each registration.
    pub closed spec fn tokens(&self) -> Seq<u64> {
        self.slots@.map_values(|s: ListenerSlot<L>| s.token)
    }

    /// The registered listeners.
    pub closed spec fn listeners(&self) -> Seq<L> {
        self.slots@.map_values(|s: ListenerSlot<L>| s.listener)
    }

    /// The token the next registration will receive.
    pub closed spec fn spec_next_token(&self) -> u64 {
        self.next_token
    }

    /// Whether the controller has been torn down.
    pub closed spec fn spec_torn_down(&self) -> bool {
        self.torn_down
    }

    /// The registry is well formed when every registration carries a distinct
    /// token below the next one to be handed out.
    pub open spec fn registry_wf(&self) -> bool {
        &&& forall|i: int, j: int|
            0 <= i < j < self.tokens().len() ==> self.tokens()[i] != self.tokens()[j]
        &&& forall|i: int| 0 <= i < self.tokens().len() ==> #[trigger] self.tokens()[i] < self.spec_next_token()
    }

    /// A controller is well formed when its registry and its session are.
    pub open spec fn wf(&self) -> bool {
        &&& self.registry_wf()
        &&& self.spec_session().wf()
    }

    /// Creates a new controller with no listeners, an empty history and a
    /// disconnected session. The connection itself is made by the outside
    /// service and reported through events.
    pub fn new() -> (c: Self)
        ensures
            c.wf(),
            !c.spec_torn_down(),
            c.spec_next_token() == 0,
            c.histories().len() == 0,
            c.tokens().len() == 0,
            c.spec_session().flags() == (FlagsView {
                service_connected: false,
                device_connected: false,
                has_focus: false,
            }),
            forall|p: Policy| !c.spec_session().spec_policy(p),
            forall|g: GestureType| !c.spec_session().spec_gesture(g),
            c.spec_session().spec_frames().len() == 0,
            c.spec_session().spec_images().len() == 0,
            c.spec_session().spec_now().spec_raw() == 0,
    {
        let c = Controller {
            state: ControllerRef {
                service_connected: false,
                device_connected: false,
                focus: false,
                policy_background_frames: false,
                policy_images: false,
                policy_optimize_hmd: false,
                gesture_swipe: false,
                gesture_circle: false,
                gesture_screen_tap: false,
                gesture_key_tap: false,
                frames: Vec::new(),
                images: image::ImageList::from_raw(Vec::new()),
                clock: Timestamp::from_raw(0),
            },
            slots: Vec::new(),
            next_token: 0,
            torn_down: false,
        };
        c
    }

    /// Registers a listener. The listener's `on_init` handler is invoked
    /// once, immediately, before any other event reaches it, and the returned
    /// token identifies this exact registration from then on.
    pub fn add_listener(&mut self, listener: L) -> (token: ListenerToken)
        requires
            old(self).wf(),
            !old(self).spec_torn_down(),
            old(self).spec_next_token() < u64::MAX,
        ensures
            final(self).wf(),
            !final(self).spec_torn_down(),
            token.spec_id() == old(self).spec_next_token(),
            final(self).spec_next_token() == old(self).spec_next_token() + 1,
            final(self).tokens() == old(self).tokens().push(token.spec_id()),
            final(self).histories() == old(self).histories().push(seq![Event::Init]),
            forall|k: int| 0 <= k < old(self).listeners().len() ==>
                final(self).listeners()[k] == old(self).listeners()[k],
            final(self).spec_session() == old(self).spec_session(),
    {
        let token_id = self.next_token;
        self.next_token = token_id + 1;
        let mut listener = listener;
        listener.on_init(&self.state);
        let ghost initial_history: Seq<Event> = seq![Event::Init];
        self.slots.push(ListenerSlot { token: token_id, listener, history: Ghost(initial_history) });
        proof {
            assert(self.tokens() =~= old(self).tokens().push(token_id));
            assert(self.histories() =~= old(self).histories().push(seq![Event::Init]));
            assert forall|k: int| 0 <= k < old(self).listeners().len() implies
                self.listeners()[k] == old(self).listeners()[k] by {
            }
        }
        ListenerToken { id: token_id }
    }

    /// Delivers one event from the device service: applies its transition to
    /// the session flags, then invokes the matching handler on every
    /// registered listener, in registration order, exactly once each.
    ///
    /// `Init` and `Exit` are not deliverable from outside: the controller
    /// raises them itself, at registration and at teardown.
    pub fn deliver(&mut self, e: Event)
        requires
            old(self).wf(),
            !old(self).spec_torn_down(),
            e != Event::Init,
            e != Event::Exit,
        ensures
            final(self).wf(),
            !final(self).spec_torn_down(),
            final(self).spec_next_token() == old(self).spec_next_token(),
            final(self).tokens() == old(self).tokens(),
            final(self).histories().len() == old(self).histories().len(),
            forall|k: int| 0 <= k < old(self).histories().len() ==>
                final(self).histories()[k] == old(self).histories()[k].push(e),
            final(self).spec_session().flags() == flags_step(old(self).spec_session().flags(), e),
            ControllerRef::same_session_data(final(self).spec_session(), old(self).spec_session()),
    {
        match e {
            Event::ServiceConnect => self.state.service_connected = true,
            Event::ServiceDisconnect => self.state.service_connected = false,
            Event::Connect => self.state.device_connected = true,
            Event::Disconnect => self.state.device_connected = false,
            Event::FocusGained => self.state.focus = true,
            Event::FocusLost => self.state.focus = false,
            _ => {},
        }
        let ghost slots0 = self.slots@;
        let ghost state0 = self.state;
        let ghost nt0 = self.next_token;
        let n = self.slots.len();
        let mut i: usize = 0;
        while i < n
            invariant
                i <= n,
                n == slots0.len(),
                self.slots@.len() == n,
                forall|k: int| 0 <= k < i ==> (#[trigger] self.slots@[k]).token == slots0[k].token
                    && self.slots@[k].history@ == slots0[k].history@.push(e),
                forall|k: int| i <= k < n ==> self.slots@[k] == slots0[k],
                self.state == state0,
                self.next_token == nt0,
                self.torn_down == false,
            decreases n - i,
        {
            dispatch_slot(&mut self.slots[i], &self.state, e);
            i = i + 1;
        }
        proof {
            assert(self.tokens() =~= old(self).tokens());
            assert forall|k: int| 0 <= k < old(self).histories().len() implies
                self.histories()[k] == old(self).histories()[k].push(e) by {
            }
        }
    }

    /// Delivers a sequence of events from the device service, in order: every
    /// registered listener observes exactly that sequence appended to its
    /// history, with nothing reordered, dropped, coalesced or duplicated.
    pub fn deliver_all(&mut self, events: &Vec<Event>)
        requires
            old(self).wf(),
            !old(self).spec_torn_down(),
            forall|j: int| 0 <= j < events@.len() ==>
                events@[j] != Event::Init && events@[j] != Event::Exit,
        ensures
            final(self).wf(),
            !final(self).spec_torn_down(),
            final(self).spec_next_token() == old(self).spec_next_token(),
            final(self).tokens() == old(self).tokens(),
            final(self).histories().len() == old(self).histories().len(),
            forall|k: int| 0 <= k < old(self).histories().len() ==>
                final(self).histories()[k] == old(self).histories()[k] + events@,
            final(self).spec_session().flags() == flags_after(old(self).spec_session().flags(), events@),
            ControllerRef::same_session_data(final(self).spec_session(), old(self).spec_session()),
    {
        let ghost hist0 = self.histories();
        let ghost flags0 = self.spec_session().flags();
        let ghost sess0 = self.spec_session();
        let ghost tokens0 = self.tokens();
        let ghost nt0 = self.spec_next_token();
        let n = events.len();
        let mut i: usize = 0;
        proof {
            assert(events@.take(0) =~= Seq::<Event>::empty());
            assert forall|k: int| 0 <= k < hist0.len() implies
                self.histories()[k] == hist0[k] + events@.take(0) by {
                assert(hist0[k] + events@.take(0) =~= hist0[k]);
            }
        }
        while i < n
            invariant
                i <= n,
                n == events@.len(),
                forall|j: int| 0 <= j < events@.len() ==>
                    events@[j] != Event::Init && events@[j] != Event::Exit,
                self.wf(),
                !self.spec_torn_down(),
                self.spec_next_token() == nt0,
                self.tokens() == tokens0,
                self.histories().len() == hist0.len(),
                forall|k: int| 0 <= k < hist0.len() ==>
                    self.histories()[k] == hist0[k] + events@.take(i as int),
                self.spec_session().flags() == flags_after(flags0, events@.take(i as int)),
                ControllerRef::same_session_data(self.spec_session(), sess0),
            decreases n - i,
        {
            let ghost hist_pre = self.histories();
            let e = events[i];
            self.deliver(e);
            proof {
                assert(events@.take(i + 1).drop_last() =~= events@.take(i as int));
                assert(events@.take(i + 1).last() == events@[i as int]);
                assert forall|k: int| 0 <= k < hist0.len() implies
                    self.histories()[k] == hist0[k] + events@.take(i + 1) by {
                    assert(self.histories()[k] == hist_pre[k].push(e));
                    assert((hist0[k] + events@.take(i as int)).push(e) =~= hist0[k] + events@.take(i + 1));
                }
            }
            i = i + 1;
        }
        proof {
            assert(events@.take(n as int) =~= events@);
        }
    }

    /// Resolves a registration token and delivers one event to that exact
    /// listener alone: no other listener is invoked, and the session state is
    /// left untouched. Returns whether the token named a registration.
    pub fn deliver_to(&mut self, token: ListenerToken, e: Event) -> (found: bool)
        requires
            old(self).wf(),
            !old(self).spec_torn_down(),
            e != Event::Init,
            e != Event::Exit,
        ensures
            final(self).wf(),
            !final(self).spec_torn_down(),
            final(self).spec_next_token() == old(self).spec_next_token(),
            final(self).tokens() == old(self).tokens(),
            final(self).spec_session() == old(self).spec_session(),
            found == old(self).tokens().contains(token.spec_id()),
            final(self).histories().len() == old(self).histories().len(),
            forall|k: int| 0 <= k < old(self).histories().len() ==>
                final(self).histories()[k] == if old(self).tokens()[k] == token.spec_id() {
                    old(self).histories()[k].push(e)
                } else {
                    old(self).histories()[k]
                },
    {
        let n = self.slots.len();
        let mut i: usize = 0;
        while i < n
            invariant
                old(self).wf(),
                !old(self).spec_torn_down(),
                i <= n,
                n == old(self).slots@.len(),
                self.slots@ == old(self).slots@,
                self.state == old(self).state,
                self.next_token == old(self).next_token,
                self.torn_down == old(self).torn_down,
                forall|k: int| 0 <= k < i ==> (#[trigger] old(self).slots@[k]).token != token.spec_id(),
            decreases n - i,
        {
            if self.slots[i].token == token.id {
                proof {
                    assert(old(self).tokens()[i as int] == token.spec_id());
                }
                dispatch_slot(&mut self.slots[i], &self.state, e);
                proof {
                    assert(self.tokens() =~= old(self).tokens());
                    lemma_registry_preserved(old(self), self);
                    assert forall|k: int| 0 <= k < old(self).histories().len() implies
                        self.histories()[k] == if old(self).tokens()[k] == token.spec_id() {
                            old(self).histories()[k].push(e)
                        } else {
                            old(self).histories()[k]
                        } by {
                        if k != i as int {
                            assert(old(self).tokens()[k] != old(self).tokens()[i as int]);
                        }
                    }
                    assert(old(self).tokens().contains(token.spec_id()));
                }
                return true;
            }
            i = i + 1;
        }
        proof {
            assert forall|k: int| 0 <= k < old(self).tokens().len() implies
                #[trigger] old(self).tokens()[k] != token.spec_id() by {
                assert(old(self).slots@[k].token != token.spec_id());
            }
            assert(!old(self).tokens().contains(token.spec_id()));
        }
        false
    }

    /// Tears the controller down: every registered listener receives `Exit`
    /// exactly once, and afterwards no event can be delivered and no listener
    /// added — destruction is final.
    pub fn teardown(&mut self)
        requires
            old(self).wf(),
            !old(self).spec_torn_down(),
        ensures
            final(self).wf(),
            final(self).spec_torn_down(),
            final(self).spec_next_token() == old(self).spec_next_token(),
            final(self).tokens() == old(self).tokens(),
            final(self).spec_session() == old(self).spec_session(),
            final(self).histories().len() == old(self).histories().len(),
            forall|k: int| 0 <= k < old(self).histories().len() ==>
                final(self).histories()[k] == old(self).histories()[k].push(Event::Exit),
    {
        let ghost slots0 = self.slots@;
        let ghost state0 = self.state;
        let ghost nt0 = self.next_token;
        let n = self.slots.len();
        let mut i: usize = 0;
        while i < n
            invariant
                i <= n,
                n == slots0.len(),
                self.slots@.len() == n,
                forall|k: int| 0 <= k < i ==> (#[trigger] self.slots@[k]).token == slots0[k].token
                    && self.slots@[k].history@ == slots0[k].history@.push(Event::Exit),
                forall|k: int| i <= k < n ==> self.slots@[k] == slots0[k],
                self.state == state0,
                self.next_token == nt0,
            decreases n - i,
        {
            dispatch_slot(&mut self.slots[i], &self.state, Event::Exit);
            i = i + 1;
        }
        self.torn_down = true;
        proof {
            assert(self.tokens() =~= old(self).tokens());
            assert forall|k: int| 0 <= k < old(self).histories().len() implies
                self.histories()[k] == old(self).histories()[k].push(Event::Exit) by {
            }
        }
    }

    /// Returns whether the controller has been torn down.
    pub fn is_torn_down(&self) -> (r: bool)
        ensures
            r == self.spec_torn_down(),
    {
        self.torn_down
    }

    /// Returns a read-only view of the session state. The session must not be
    /// queried after teardown.
    pub fn session(&self) -> (s: &ControllerRef)
        requires
            !self.spec_torn_down(),
        ensures
            *s == self.spec_session(),
    {
        &self.state
    }

    /// Returns a mutable view of the session state, for enabling policies and
    /// gestures. The session must not be touched after teardown.
    pub fn session_mut(&mut self) -> (s: &mut ControllerRef)
        requires
            !old(self).spec_torn_down(),
        ensures
            *s == old(self).spec_session(),
            final(self).spec_session() == *final(s),
            final(self).histories() == old(self).histories(),
            final(self).tokens() == old(self).tokens(),
            final(self).listeners() == old(self).listeners(),
            final(self).spec_next_token() == old(self).spec_next_token(),
            !final(self).spec_torn_down(),
    {
        &mut self.state
    }

    /// Returns the number of registered listeners.
    pub fn listener_count(&self) -> (n: usize)
        ensures
            n == self.tokens().len(),
    {
        self.slots.len()
    }

    /// Returns the listener at the given registration position.
    pub fn listener_at(&self, i: usize) -> (l: &L)
        requires
            i < self.tokens().len(),
        ensures
            *l == self.listeners()[i as int],
    {
        &self.slots[i].listener
    }

    /// Records a new frame of tracking data as the most recent entry of the
    /// history, dropping the oldest entry beyond the retained capacity. The
    /// outside service reports the matching occurrence by delivering
    /// [`Event::Frame`].
    pub fn push_frame(&mut self, frame: Frame)
        requires
            old(self).wf(),
            !old(self).spec_torn_down(),
            frame.spec_valid(),
        ensures
            final(self).wf(),
            !final(self).spec_torn_down(),
            final(self).spec_session().spec_frames() == frames_after_push(
                old(self).spec_session().spec_frames(),
                frame,
            ),
            final(self).spec_session().flags() == old(self).spec_session().flags(),
            forall|p: Policy| final(self).spec_session().spec_policy(p) == old(self).spec_session().spec_policy(p),
            forall|g: GestureType| final(self).spec_session().spec_gesture(g) == old(self).spec_session().spec_gesture(g),
            final(self).spec_session().spec_images() == old(self).spec_session().spec_images(),
            final(self).spec_session().spec_now() == old(self).spec_session().spec_now(),
            final(self).histories() == old(self).histories(),
            final(self).tokens() == old(self).tokens(),
            final(self).spec_next_token() == old(self).spec_next_token(),
    {
        self.state.frames.insert(0, frame);
        if self.state.frames.len() > 60 {
            self.state.frames.truncate(60);
        }
        proof {
            assert(self.state.frames@ =~= frames_after_push(old(self).state.frames@, frame));
            assert forall|i: int| 0 <= i < self.state.frames@.len() implies
                (#[trigger] self.state.frames@[i]).spec_valid() by {
                if i > 0 {
                    assert(old(self).state.frames@[i - 1].spec_valid());
                }
            }
            lemma_registry_preserved(old(self), self);
        }
    }

    /// Replaces the current set of camera images. The outside service reports
    /// the matching occurrence by delivering [`Event::Images`].
    pub fn set_images(&mut self, images: image::ImageList)
        requires
            old(self).wf(),
            !old(self).spec_torn_down(),
        ensures
            final(self).wf(),
            !final(self).spec_torn_down(),
            final(self).spec_session().spec_images() == images@,
            final(self).spec_session().flags() == old(self).spec_session().flags(),
            forall|p: Policy| final(self).spec_session().spec_policy(p) == old(self).spec_session().spec_policy(p),
            forall|g: GestureType| final(self).spec_session().spec_gesture(g) == old(self).spec_session().spec_gesture(g),
            final(self).spec_session().spec_frames() == old(self).spec_session().spec_frames(),
            final(self).spec_session().spec_now() == old(self).spec_session().spec_now(),
            final(self).histories() == old(self).histories(),
            final(self).tokens() == old(self).tokens(),
            final(self).spec_next_token() == old(self).spec_next_token(),
    {
        self.state.images = images;
        proof {
            lemma_registry_preserved(old(self), self);
        }
    }

    /// Moves the service clock forward (or anywhere: the clock is whatever
    /// the outside service reports).
    pub fn set_now(&mut self, t: Timestamp)
        requires
            old(self).wf(),
            !old(self).spec_torn_down(),
        ensures
            final(self).wf(),
            !final(self).spec_torn_down(),
            final(self).spec_session().spec_now() == t,
            final(self).spec_session().flags() == old(self).spec_session().flags(),
            forall|p: Policy| final(self).spec_session().spec_policy(p) == old(self).spec_session().spec_policy(p),
            forall|g: GestureType| final(self).spec_session().spec_gesture(g) == old(self).spec_session().spec_gesture(g),
            final(self).spec_session().spec_frames() == old(self).spec_session().spec_frames(),
            final(self).spec_session().spec_images() == old(self).spec_session().spec_images(),
            final(self).histories() == old(self).histories(),
            final(self).tokens() == old(self).tokens(),
            final(self).spec_next_token() == old(self).spec_next_token(),
    {
        self.state.clock = t;
        proof {
            lemma_registry_preserved(old(self), self);
        }
    }
}

} // verus!
