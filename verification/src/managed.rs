//! The managed wait layer: "wait until X" conditions over the controller's
//! events.
//!
//! Each level-triggered property (service connected, device connected, focus)
//! is waited on by re-checking the session flag against the wanted value; each
//! edge-triggered class (frame, images, device change) is waited on through a
//! monotonic counter that every qualifying delivery advances by exactly one.
//! A wait captures the counter value it observed as its baseline; a delivery
//! releases it exactly when the counter has moved off that baseline, so a
//! waiter can never miss a delivery that completes after it was enqueued.
//!
//! Blocking itself belongs to the caller's runtime: a wait either reports the
//! condition as already satisfied or enqueues a ticketed waiter, and every
//! delivery reports which tickets it released, so a driver can park and wake
//! threads on those tickets.

use vstd::prelude::*;
use crate::flags_step;
use crate::Controller;
use crate::ControllerRef;
use crate::Event;
use crate::FlagsView;
use crate::GestureType;
use crate::Listener;
use crate::ListenerToken;
use crate::Policy;

verus! {

/// The edge-triggered occurrence counters, one per event class that has no
/// stable boolean state. Never reset.
#[derive(Debug, Clone, Copy, PartialEq, Eq, Structural)]
pub struct WaitCounters {
    /// Frames delivered so far.
    pub frame: u64,
    /// Image sets delivered so far.
    pub images: u64,
    /// Device configuration changes delivered so far.
    pub device_change: u64,
}

/// The counters seen as unbounded numbers, for the transition system.
pub struct CountersView {
    /// Frames delivered so far.
    pub frame: nat,
    /// Image sets delivered so far.
    pub images: nat,
    /// Device configuration changes delivered so far.
    pub device_change: nat,
}

impl View for WaitCounters {
    type V = CountersView;

    open spec fn view(&self) -> CountersView {
        CountersView {
            frame: self.frame as nat,
            images: self.images as nat,
            device_change: self.device_change as nat,
        }
    }
}

/// How one event advances the counters: the matching counter goes up by
/// exactly one, every other counter stays.
pub open spec fn counters_step(k: CountersView, e: Event) -> CountersView {
    match e {
        Event::Frame => CountersView { frame: k.frame + 1, ..k },
        Event::Images => CountersView { images: k.images + 1, ..k },
        Event::DeviceChange => CountersView { device_change: k.device_change + 1, ..k },
        _ => k,
    }
}

/// The counters after a whole sequence of events, applied in order.
pub open spec fn counters_after(k: CountersView, es: Seq<Event>) -> CountersView
    decreases es.len(),
{
    if es.len() == 0 {
        k
    } else {
        counters_step(counters_after(k, es.drop_last()), es.last())
    }
}

/// The number of occurrences of one event kind in a sequence.
pub open spec fn count_of(es: Seq<Event>, e: Event) -> nat
    decreases es.len(),
{
    if es.len() == 0 {
        0
    } else {
        count_of(es.drop_last(), e) + (if es.last() == e { 1nat } else { 0nat })
    }
}

/// Counter monotonicity: over any event sequence, each counter is
/// non-decreasing and goes up by exactly one per qualifying event, no matter
/// what else the sequence holds.
pub proof fn lemma_counter_evolution(k: CountersView, es: Seq<Event>)
    ensures
        counters_after(k, es).frame == k.frame + count_of(es, Event::Frame),
        counters_after(k, es).images == k.images + count_of(es, Event::Images),
        counters_after(k, es).device_change == k.device_change + count_of(es, Event::DeviceChange),
        counters_after(k, es).frame >= k.frame,
        counters_after(k, es).images >= k.images,
        counters_after(k, es).device_change >= k.device_change,
    decreases es.len(),
{
    if es.len() > 0 {
        lemma_counter_evolution(k, es.drop_last());
    }
}

/// What a blocked wait is waiting for.
#[derive(Debug, Clone, Copy, PartialEq, Eq, Structural)]
pub enum WaitCondition {
    /// The service connection to be established.
    ServiceConnected,
    /// The service connection to be gone.
    ServiceDisconnected,
    /// A device to be connected.
    DeviceConnected,
    /// No device to be connected.
    DeviceDisconnected,
    /// The application to have device focus.
    FocusGained,
    /// The application to have lost device focus.
    FocusLost,
    /// The frame counter to move off the observed baseline.
    FrameAdvance,
    /// The images counter to move off the observed baseline.
    ImagesAdvance,
    /// The device-change counter to move off the observed baseline.
    DeviceChangeAdvance,
}

/// Identifies one blocked wait, so a delivery can report whom it released.
#[derive(Debug, Clone, Copy, PartialEq, Eq, Structural)]
pub struct WaitTicket {
    /// The numeric identity of the wait.
    pub id: u64,
}

/// One blocked wait: its ticket, what it waits for, and — for the
/// edge-triggered conditions — the counter value it observed when it began.
#[derive(Debug, Clone, Copy, PartialEq, Eq, Structural)]
pub struct Waiter {
    /// The identity handed back to the caller that began the wait.
    pub ticket: WaitTicket,
    /// What the wait is waiting for.
    pub condition: WaitCondition,
    /// The counter value observed when the wait began; meaningless for the
    /// level-triggered conditions.
    pub baseline: u64,
}

/// What a wait begun with [`ManagedController::wait_until_device_connected`]
/// and its siblings reports: the condition already held, or a ticketed waiter
/// is now pending.
#[derive(Debug, Clone, Copy, PartialEq, Eq, Structural)]
pub enum WaitOutcome {
    /// The condition already held; nothing blocks.
    Ready,
    /// The condition did not hold; the wait is pending under this ticket.
    Pending(WaitTicket),
}

/// Whether a waiter's condition holds of the given flags and counters: a
/// level-triggered wait is ready when the property has its target value, an
/// edge-triggered wait when its counter has moved off the observed baseline.
pub open spec fn waiter_ready(w: Waiter, f: FlagsView, k: CountersView) -> bool {
    match w.condition {
        WaitCondition::ServiceConnected => f.service_connected,
        WaitCondition::ServiceDisconnected => !f.service_connected,
        WaitCondition::DeviceConnected => f.device_connected,
        WaitCondition::DeviceDisconnected => !f.device_connected,
        WaitCondition::FocusGained => f.has_focus,
        WaitCondition::FocusLost => !f.has_focus,
        WaitCondition::FrameAdvance => k.frame != w.baseline as nat,
        WaitCondition::ImagesAdvance => k.images != w.baseline as nat,
        WaitCondition::DeviceChangeAdvance => k.device_change != w.baseline as nat,
    }
}

/// An edge-triggered waiter's baseline never runs ahead of its counter.
pub open spec fn waiter_baseline_ok(w: Waiter, k: CountersView) -> bool {
    match w.condition {
        WaitCondition::FrameAdvance => w.baseline as nat <= k.frame,
        WaitCondition::ImagesAdvance => w.baseline as nat <= k.images,
        WaitCondition::DeviceChangeAdvance => w.baseline as nat <= k.device_change,
        _ => true,
    }
}

/// The tickets of the waiters whose condition holds, in their waiting order.
pub open spec fn released_of(ws: Seq<Waiter>, f: FlagsView, k: CountersView) -> Seq<WaitTicket>
    decreases ws.len(),
{
    if ws.len() == 0 {
        Seq::empty()
    } else {
        let init = released_of(ws.drop_last(), f, k);
        if waiter_ready(ws.last(), f, k) {
            init.push(ws.last().ticket)
        } else {
            init
        }
    }
}

/// The waiters whose condition does not hold, in their waiting order.
pub open spec fn retained_of(ws: Seq<Waiter>, f: FlagsView, k: CountersView) -> Seq<Waiter>
    decreases ws.len(),
{
    if ws.len() == 0 {
        Seq::empty()
    } else {
        let init = retained_of(ws.drop_last(), f, k);
        if waiter_ready(ws.last(), f, k) {
            init
        } else {
            init.push(ws.last())
        }
    }
}

/// Every retained waiter is one of the original waiters, none is ready, and
/// there are no more of them than before.
proof fn lemma_retained_of_props(ws: Seq<Waiter>, f: FlagsView, k: CountersView)
    ensures
        retained_of(ws, f, k).len() <= ws.len(),
        forall|i: int| 0 <= i < retained_of(ws, f, k).len() ==>
            ws.contains(#[trigger] retained_of(ws, f, k)[i]),
        forall|i: int| 0 <= i < retained_of(ws, f, k).len() ==>
            !waiter_ready(#[trigger] retained_of(ws, f, k)[i], f, k),
    decreases ws.len(),
{
    if ws.len() > 0 {
        lemma_retained_of_props(ws.drop_last(), f, k);
        assert forall|i: int| 0 <= i < retained_of(ws, f, k).len() implies
            ws.contains(#[trigger] retained_of(ws, f, k)[i]) by {
            if i < retained_of(ws.drop_last(), f, k).len() {
                let w = retained_of(ws.drop_last(), f, k)[i];
                let j = choose|j: int| 0 <= j < ws.drop_last().len() && ws.drop_last()[j] == w;
                assert(ws[j] == w);
            } else {
                assert(retained_of(ws, f, k)[i] == ws.last());
                assert(ws[ws.len() - 1] == ws.last());
            }
        }
    }
}

/// A waiter that is ready under the new flags and counters has its ticket in
/// the released set computed from them.
pub proof fn lemma_ready_waiter_released(ws: Seq<Waiter>, f: FlagsView, k: CountersView, i: int)
    requires
        0 <= i < ws.len(),
        waiter_ready(ws[i], f, k),
    ensures
        released_of(ws, f, k).contains(ws[i].ticket),
    decreases ws.len(),
{
    if i == ws.len() - 1 {
        let r = released_of(ws, f, k);
        assert(r[r.len() - 1] == ws[i].ticket);
    } else {
        lemma_ready_waiter_released(ws.drop_last(), f, k, i);
        let init = released_of(ws.drop_last(), f, k);
        let j = choose|j: int| 0 <= j < init.len() && init[j] == ws.drop_last()[i].ticket;
        assert(released_of(ws, f, k)[j] == ws[i].ticket);
    }
}

/// An edge-triggered waiter whose baseline has not run ahead is ready once
/// its event is delivered one more time.
pub proof fn lemma_edge_waiter_ready(w: Waiter, f: FlagsView, k: CountersView, e: Event)
    requires
        waiter_baseline_ok(w, k),
        (w.condition == WaitCondition::FrameAdvance && e == Event::Frame)
            || (w.condition == WaitCondition::ImagesAdvance && e == Event::Images)
            || (w.condition == WaitCondition::DeviceChangeAdvance && e == Event::DeviceChange),
    ensures
        waiter_ready(w, f, counters_step(k, e)),
{
}

/// A waiter blocked on an edge-triggered class before delivery number `j` of
/// its event is ready no later than that delivery's completion, whatever else
/// the sequence delivers in between.
pub proof fn lemma_edge_waiter_ready_by_delivery(
    w: Waiter,
    f: FlagsView,
    k: CountersView,
    es: Seq<Event>,
    j: int,
)
    requires
        waiter_baseline_ok(w, k),
        0 <= j < es.len(),
        (w.condition == WaitCondition::FrameAdvance && es[j] == Event::Frame)
            || (w.condition == WaitCondition::ImagesAdvance && es[j] == Event::Images)
            || (w.condition == WaitCondition::DeviceChangeAdvance && es[j] == Event::DeviceChange),
    ensures
        waiter_ready(w, f, counters_after(k, es.take(j + 1))),
{
    let pre = counters_after(k, es.take(j));
    lemma_counter_evolution(k, es.take(j));
    assert(es.take(j + 1).drop_last() =~= es.take(j));
    assert(es.take(j + 1).last() == es[j]);
    lemma_edge_waiter_ready(w, f, pre, es[j]);
}

/// A pending frame waiter is released by the very delivery of the frame event
/// that advances the counter: its ticket is in the released set computed from
/// the stepped flags and counters.
pub proof fn lemma_frame_delivery_releases(ws: Seq<Waiter>, f: FlagsView, k: CountersView, i: int)
    requires
        0 <= i < ws.len(),
        ws[i].condition == WaitCondition::FrameAdvance,
        waiter_baseline_ok(ws[i], k),
    ensures
        released_of(
            ws,
            flags_step(f, Event::Frame),
            counters_step(k, Event::Frame),
        ).contains(ws[i].ticket),
{
    lemma_edge_waiter_ready(ws[i], flags_step(f, Event::Frame), k, Event::Frame);
    lemma_ready_waiter_released(ws, flags_step(f, Event::Frame), counters_step(k, Event::Frame), i);
}

/// Decides one waiter's condition against the current session and counters.
fn waiter_ready_exec(w: &Waiter, state: &ControllerRef, counters: &WaitCounters) -> (r: bool)
    ensures
        r == waiter_ready(*w, state.flags(), counters@),
{
    match w.condition {
        WaitCondition::ServiceConnected => state.is_service_connected(),
        WaitCondition::ServiceDisconnected => !state.is_service_connected(),
        WaitCondition::DeviceConnected => state.is_connected(),
        WaitCondition::DeviceDisconnected => !state.is_connected(),
        WaitCondition::FocusGained => state.has_focus(),
        WaitCondition::FocusLost => !state.has_focus(),
        WaitCondition::FrameAdvance => counters.frame != w.baseline,
        WaitCondition::ImagesAdvance => counters.images != w.baseline,
        WaitCondition::DeviceChangeAdvance => counters.device_change != w.baseline,
    }
}

/// A controller wrapped with the wait layer: the occurrence counters and the
/// set of pending waiters, updated under the same delivery that updates the
/// session — a wait that begins before a delivery completes can therefore
/// never miss it.
///
/// The counter updates play the part of the layer's internal listener:
/// [`ManagedController::deliver`] both notifies the registered listeners and
/// drives the wait state, atomically with respect to any interleaved waits.
pub struct ManagedController<L: Listener> {
    inner: Controller<L>,
    counters: WaitCounters,
    waiters: Vec<Waiter>,
    next_ticket: u64,
}

impl<L: Listener> ManagedController<L> {
    /// The wrapped controller.
    pub closed spec fn spec_inner(&self) -> Controller<L> {
        self.inner
    }

    /// The occurrence counters.
    pub closed spec fn spec_counters(&self) -> WaitCounters {
        self.counters
    }

    /// The pending waiters, in waiting order.
    pub closed spec fn spec_waiters(&self) -> Seq<Waiter> {
        self.waiters@
    }

    /// The ticket the next wait will receive.
    pub closed spec fn spec_next_ticket(&self) -> u64 {
        self.next_ticket
    }

    /// The session state.
    pub open spec fn spec_session(&self) -> ControllerRef {
        self.spec_inner().spec_session()
    }

    /// The level-triggered session flags.
    pub open spec fn spec_flags(&self) -> FlagsView {
        self.spec_session().flags()
    }

    /// The events delivered to each registered listener, in delivery order.
    pub open spec fn histories(&self) -> Seq<Seq<Event>> {
        self.spec_inner().histories()
    }

    /// The identity token of each registration.
    pub open spec fn tokens(&self) -> Seq<u64> {
        self.spec_inner().tokens()
    }

    /// Whether the controller has been torn down.
    pub open spec fn spec_torn_down(&self) -> bool {
        self.spec_inner().spec_torn_down()
    }

    /// Well-formedness: the wrapped controller is well formed, no baseline
    /// runs ahead of its counter, and every pending ticket is distinct and
    /// below the next one to be handed out.
    pub open spec fn wf(&self) -> bool {
        &&& self.spec_inner().wf()
        &&& forall|i: int| 0 <= i < self.spec_waiters().len() ==>
            waiter_baseline_ok(#[trigger] self.spec_waiters()[i], self.spec_counters()@)
        &&& forall|i: int| 0 <= i < self.spec_waiters().len() ==>
            (#[trigger] self.spec_waiters()[i]).ticket.id < self.spec_next_ticket()
        &&& forall|i: int, j: int| 0 <= i < j < self.spec_waiters().len() ==>
            self.spec_waiters()[i].ticket.id != self.spec_waiters()[j].ticket.id
    }

    /// Creates a managed controller over a fresh controller, with all
    /// counters at zero and no pending waiters.
    pub fn new() -> (mc: Self)
        ensures
            mc.wf(),
            !mc.spec_torn_down(),
            mc.spec_counters() == (WaitCounters { frame: 0, images: 0, device_change: 0 }),
            mc.spec_waiters().len() == 0,
            mc.spec_next_ticket() == 0,
            mc.histories().len() == 0,
            mc.tokens().len() == 0,
            mc.spec_flags() == (FlagsView {
                service_connected: false,
                device_connected: false,
                has_focus: false,
            }),
            forall|p: Policy| !mc.spec_session().spec_policy(p),
            forall|g: GestureType| !mc.spec_session().spec_gesture(g),
            mc.spec_session().spec_frames().len() == 0,
            mc.spec_session().spec_images().len() == 0,
    {
        ManagedController {
            inner: Controller::new(),
            counters: WaitCounters { frame: 0, images: 0, device_change: 0 },
            waiters: Vec::new(),
            next_ticket: 0,
        }
    }

    /// Delivers one event: notifies every registered listener (in order),
    /// advances the matching counter by exactly one, and releases exactly the
    /// waiters whose condition holds afterwards, reporting their tickets in
    /// waiting order. Everything happens under the one delivery, so no wait
    /// that was pending beforehand can miss it.
    pub fn deliver(&mut self, e: Event) -> (released: Vec<WaitTicket>)
        requires
            old(self).wf(),
            !old(self).spec_torn_down(),
            e != Event::Init,
            e != Event::Exit,
            e == Event::Frame ==> old(self).spec_counters().frame < u64::MAX,
            e == Event::Images ==> old(self).spec_counters().images < u64::MAX,
            e == Event::DeviceChange ==> old(self).spec_counters().device_change < u64::MAX,
        ensures
            final(self).wf(),
            !final(self).spec_torn_down(),
            final(self).spec_counters()@ == counters_step(old(self).spec_counters()@, e),
            final(self).spec_flags() == flags_step(old(self).spec_flags(), e),
            ControllerRef::same_session_data(final(self).spec_session(), old(self).spec_session()),
            final(self).tokens() == old(self).tokens(),
            final(self).histories().len() == old(self).histories().len(),
            forall|k: int| 0 <= k < old(self).histories().len() ==>
                final(self).histories()[k] == old(self).histories()[k].push(e),
            released@ == released_of(
                old(self).spec_waiters(),
                final(self).spec_flags(),
                final(self).spec_counters()@,
            ),
            final(self).spec_waiters() == retained_of(
                old(self).spec_waiters(),
                final(self).spec_flags(),
                final(self).spec_counters()@,
            ),
            final(self).spec_next_ticket() == old(self).spec_next_ticket(),
    {
        self.inner.deliver(e);
        match e {
            Event::Frame => self.counters.frame = self.counters.frame + 1,
            Event::Images => self.counters.images = self.counters.images + 1,
            Event::DeviceChange => self.counters.device_change = self.counters.device_change + 1,
            _ => {},
        }
        let ghost f1 = self.spec_flags();
        let ghost k1 = self.spec_counters()@;
        let ghost waiters0 = self.spec_waiters();
        let mut retained: Vec<Waiter> = Vec::new();
        let mut released: Vec<WaitTicket> = Vec::new();
        let n = self.waiters.len();
        let mut i: usize = 0;
        proof {
            assert(waiters0.take(0) =~= Seq::<Waiter>::empty());
        }
        while i < n
            invariant
                i <= n,
                n == self.spec_waiters().len(),
                !self.spec_torn_down(),
                waiters0 == self.spec_waiters(),
                f1 == self.spec_flags(),
                k1 == self.spec_counters()@,
                released@ == released_of(waiters0.take(i as int), f1, k1),
                retained@ == retained_of(waiters0.take(i as int), f1, k1),
            decreases n - i,
        {
            let w = self.waiters[i];
            if waiter_ready_exec(&w, self.inner.session(), &self.counters) {
                released.push(w.ticket);
            } else {
                retained.push(w);
            }
            proof {
                assert(waiters0.take(i as int + 1).drop_last() =~= waiters0.take(i as int));
                assert(waiters0.take(i as int + 1).last() == waiters0[i as int]);
            }
            i = i + 1;
        }
        proof {
            assert(waiters0.take(n as int) =~= waiters0);
        }
        self.waiters = retained;
        proof {
            lemma_retained_of_props(waiters0, f1, k1);
            assert forall|a: int| 0 <= a < self.spec_waiters().len() implies
                waiter_baseline_ok(#[trigger] self.spec_waiters()[a], self.spec_counters()@) by {
                let w = self.spec_waiters()[a];
                let j = choose|j: int| 0 <= j < waiters0.len() && waiters0[j] == w;
                assert(waiter_baseline_ok(waiters0[j], old(self).spec_counters()@));
            }
            assert forall|a: int| 0 <= a < self.spec_waiters().len() implies
                (#[trigger] self.spec_waiters()[a]).ticket.id < self.spec_next_ticket() by {
                let w = self.spec_waiters()[a];
                let j = choose|j: int| 0 <= j < waiters0.len() && waiters0[j] == w;
            }
            assert forall|a: int, b: int| 0 <= a < b < self.spec_waiters().len() implies
                self.spec_waiters()[a].ticket.id != self.spec_waiters()[b].ticket.id by {
                lemma_retained_distinct(waiters0, f1, k1, a, b);
            }
        }
        released
    }

    /// Begins a wait and enqueues its waiter.
    fn enqueue(&mut self, condition: WaitCondition, baseline: u64) -> (t: WaitTicket)
        requires
            old(self).wf(),
            old(self).spec_next_ticket() < u64::MAX,
            waiter_baseline_ok(
                (Waiter {
                    ticket: WaitTicket { id: old(self).spec_next_ticket() },
                    condition,
                    baseline,
                }),
                old(self).spec_counters()@,
            ),
        ensures
            final(self).wf(),
            t.id == old(self).spec_next_ticket(),
            final(self).spec_next_ticket() == old(self).spec_next_ticket() + 1,
            final(self).spec_waiters() == old(self).spec_waiters().push(
                (Waiter { ticket: t, condition, baseline }),
            ),
            final(self).spec_counters() == old(self).spec_counters(),
            final(self).spec_inner() == old(self).spec_inner(),
    {
        let t = WaitTicket { id: self.next_ticket };
        self.next_ticket = self.next_ticket + 1;
        self.waiters.push(Waiter { ticket: t, condition, baseline });
        t
    }

    /// Begins a level-triggered wait: reports `Ready` exactly when the
    /// property already has its target value, and enqueues a ticketed waiter
    /// otherwise.
    fn wait_level(&mut self, satisfied: bool, condition: WaitCondition) -> (r: WaitOutcome)
        requires
            old(self).wf(),
            old(self).spec_next_ticket() < u64::MAX,
        ensures
            final(self).wf(),
            (r == WaitOutcome::Ready) == satisfied,
            satisfied ==> final(self).spec_waiters() == old(self).spec_waiters()
                && final(self).spec_next_ticket() == old(self).spec_next_ticket(),
            !satisfied ==> (r == WaitOutcome::Pending(WaitTicket { id: old(self).spec_next_ticket() }))
                && final(self).spec_next_ticket() == old(self).spec_next_ticket() + 1
                && final(self).spec_waiters() == old(self).spec_waiters().push(
                    (Waiter {
                        ticket: WaitTicket { id: old(self).spec_next_ticket() },
                        condition,
                        baseline: 0,
                    }),
                ),
            final(self).spec_counters() == old(self).spec_counters(),
            final(self).spec_inner() == old(self).spec_inner(),
    {
        if satisfied {
            WaitOutcome::Ready
        } else {
            WaitOutcome::Pending(self.enqueue(condition, 0))
        }
    }

    /// Waits until the connection to the tracking service is established:
    /// returns `Ready` at once — without blocking — exactly when it already
    /// is, and a pending ticket otherwise.
    pub fn wait_until_service_connected(&mut self) -> (r: WaitOutcome)
        requires
            old(self).wf(),
            !old(self).spec_torn_down(),
            old(self).spec_next_ticket() < u64::MAX,
        ensures
            final(self).wf(),
            (r == WaitOutcome::Ready) == old(self).spec_flags().service_connected,
            old(self).spec_flags().service_connected ==> final(self).spec_waiters() == old(self).spec_waiters()
                && final(self).spec_next_ticket() == old(self).spec_next_ticket(),
            !old(self).spec_flags().service_connected ==> (r == WaitOutcome::Pending(
                WaitTicket { id: old(self).spec_next_ticket() },
            )) && final(self).spec_next_ticket() == old(self).spec_next_ticket() + 1
                && final(self).spec_waiters() == old(self).spec_waiters().push(
                    (Waiter {
                        ticket: WaitTicket { id: old(self).spec_next_ticket() },
                        condition: WaitCondition::ServiceConnected,
                        baseline: 0,
                    }),
                ),
            final(self).spec_counters() == old(self).spec_counters(),
            final(self).spec_inner() == old(self).spec_inner(),
    {
        let satisfied = self.inner.session().is_service_connected();
        self.wait_level(satisfied, WaitCondition::ServiceConnected)
    }

    /// Waits until the connection to the tracking service is gone: returns
    /// `Ready` at once — without blocking — exactly when it already is, and a
    /// pending ticket otherwise.
    pub fn wait_until_service_disconnected(&mut self) -> (r: WaitOutcome)
        requires
            old(self).wf(),
            !old(self).spec_torn_down(),
            old(self).spec_next_ticket() < u64::MAX,
        ensures
            final(self).wf(),
            (r == WaitOutcome::Ready) == !old(self).spec_flags().service_connected,
            !old(self).spec_flags().service_connected ==> final(self).spec_waiters() == old(self).spec_waiters()
                && final(self).spec_next_ticket() == old(self).spec_next_ticket(),
            old(self).spec_flags().service_connected ==> (r == WaitOutcome::Pending(
                WaitTicket { id: old(self).spec_next_ticket() },
            )) && final(self).spec_next_ticket() == old(self).spec_next_ticket() + 1
                && final(self).spec_waiters() == old(self).spec_waiters().push(
                    (Waiter {
                        ticket: WaitTicket { id: old(self).spec_next_ticket() },
                        condition: WaitCondition::ServiceDisconnected,
                        baseline: 0,
                    }),
                ),
            final(self).spec_counters() == old(self).spec_counters(),
            final(self).spec_inner() == old(self).spec_inner(),
    {
        let satisfied = !self.inner.session().is_service_connected();
        self.wait_level(satisfied, WaitCondition::ServiceDisconnected)
    }

    /// Waits until a tracking device is connected: returns `Ready` at once —
    /// without blocking — exactly when one already is, and a pending ticket
    /// otherwise.
    pub fn wait_until_device_connected(&mut self) -> (r: WaitOutcome)
        requires
            old(self).wf(),
            !old(self).spec_torn_down(),
            old(self).spec_next_ticket() < u64::MAX,
        ensures
            final(self).wf(),
            (r == WaitOutcome::Ready) == old(self).spec_flags().device_connected,
            old(self).spec_flags().device_connected ==> final(self).spec_waiters() == old(self).spec_waiters()
                && final(self).spec_next_ticket() == old(self).spec_next_ticket(),
            !old(self).spec_flags().device_connected ==> (r == WaitOutcome::Pending(
                WaitTicket { id: old(self).spec_next_ticket() },
            )) && final(self).spec_next_ticket() == old(self).spec_next_ticket() + 1
                && final(self).spec_waiters() == old(self).spec_waiters().push(
                    (Waiter {
                        ticket: WaitTicket { id: old(self).spec_next_ticket() },
                        condition: WaitCondition::DeviceConnected,
                        baseline: 0,
                    }),
                ),
            final(self).spec_counters() == old(self).spec_counters(),
            final(self).spec_inner() == old(self).spec_inner(),
    {
        let satisfied = self.inner.session().is_connected();
        self.wait_level(satisfied, WaitCondition::DeviceConnected)
    }

    /// Waits until no tracking device is connected: returns `Ready` at once —
    /// without blocking — exactly when none already is, and a pending ticket
    /// otherwise.
    pub fn wait_until_device_disconnected(&mut self) -> (r: WaitOutcome)
        requires
            old(self).wf(),
            !old(self).spec_torn_down(),
            old(self).spec_next_ticket() < u64::MAX,
        ensures
            final(self).wf(),
            (r == WaitOutcome::Ready) == !old(self).spec_flags().device_connected,
            !old(self).spec_flags().device_connected ==> final(self).spec_waiters() == old(self).spec_waiters()
                && final(self).spec_next_ticket() == old(self).spec_next_ticket(),
            old(self).spec_flags().device_connected ==> (r == WaitOutcome::Pending(
                WaitTicket { id: old(self).spec_next_ticket() },
            )) && final(self).spec_next_ticket() == old(self).spec_next_ticket() + 1
                && final(self).spec_waiters() == old(self).spec_waiters().push(
                    (Waiter {
                        ticket: WaitTicket { id: old(self).spec_next_ticket() },
                        condition: WaitCondition::DeviceDisconnected,
                        baseline: 0,
                    }),
                ),
            final(self).spec_counters() == old(self).spec_counters(),
            final(self).spec_inner() == old(self).spec_inner(),
    {
        let satisfied = !self.inner.session().is_connected();
        self.wait_level(satisfied, WaitCondition::DeviceDisconnected)
    }

    /// Waits until the application has device focus: returns `Ready` at once —
    /// without blocking — exactly when it already has, and a pending ticket
    /// otherwise.
    pub fn wait_until_focus_gained(&mut self) -> (r: WaitOutcome)
        requires
            old(self).wf(),
            !old(self).spec_torn_down(),
            old(self).spec_next_ticket() < u64::MAX,
        ensures
            final(self).wf(),
            (r == WaitOutcome::Ready) == old(self).spec_flags().has_focus,
            old(self).spec_flags().has_focus ==> final(self).spec_waiters() == old(self).spec_waiters()
                && final(self).spec_next_ticket() == old(self).spec_next_ticket(),
            !old(self).spec_flags().has_focus ==> (r == WaitOutcome::Pending(
                WaitTicket { id: old(self).spec_next_ticket() },
            )) && final(self).spec_next_ticket() == old(self).spec_next_ticket() + 1
                && final(self).spec_waiters() == old(self).spec_waiters().push(
                    (Waiter {
                        ticket: WaitTicket { id: old(self).spec_next_ticket() },
                        condition: WaitCondition::FocusGained,
                        baseline: 0,
                    }),
                ),
            final(self).spec_counters() == old(self).spec_counters(),
            final(self).spec_inner() == old(self).spec_inner(),
    {
        let satisfied = self.inner.session().has_focus();
        self.wait_level(satisfied, WaitCondition::FocusGained)
    }

    /// Waits until the application has lost device focus: returns `Ready` at
    /// once — without blocking — exactly when it already has, and a pending
    /// ticket otherwise.
    pub fn wait_until_focus_lost(&mut self) -> (r: WaitOutcome)
        requires
            old(self).wf(),
            !old(self).spec_torn_down(),
            old(self).spec_next_ticket() < u64::MAX,
        ensures
            final(self).wf(),
            (r == WaitOutcome::Ready) == !old(self).spec_flags().has_focus,
            !old(self).spec_flags().has_focus ==> final(self).spec_waiters() == old(self).spec_waiters()
                && final(self).spec_next_ticket() == old(self).spec_next_ticket(),
            old(self).spec_flags().has_focus ==> (r == WaitOutcome::Pending(
                WaitTicket { id: old(self).spec_next_ticket() },
            )) && final(self).spec_next_ticket() == old(self).spec_next_ticket() + 1
                && final(self).spec_waiters() == old(self).spec_waiters().push(
                    (Waiter {
                        ticket: WaitTicket { id: old(self).spec_next_ticket() },
                        condition: WaitCondition::FocusLost,
                        baseline: 0,
                    }),
                ),
            final(self).spec_counters() == old(self).spec_counters(),
            final(self).spec_inner() == old(self).spec_inner(),
    {
        let satisfied = !self.inner.session().has_focus();
        self.wait_level(satisfied, WaitCondition::FocusLost)
    }

    /// Begins a wait for the next frame delivery: the waiter captures the
    /// current frame counter as its baseline and is released by the first
    /// delivery that moves the counter off it — a wait begun before a
    /// delivery can therefore never miss it.
    pub fn wait_until_frame(&mut self) -> (t: WaitTicket)
        requires
            old(self).wf(),
            old(self).spec_next_ticket() < u64::MAX,
        ensures
            final(self).wf(),
            t.id == old(self).spec_next_ticket(),
            final(self).spec_next_ticket() == old(self).spec_next_ticket() + 1,
            final(self).spec_waiters() == old(self).spec_waiters().push(
                (Waiter {
                    ticket: t,
                    condition: WaitCondition::FrameAdvance,
                    baseline: old(self).spec_counters().frame,
                }),
            ),
            final(self).spec_counters() == old(self).spec_counters(),
            final(self).spec_inner() == old(self).spec_inner(),
    {
        let baseline = self.counters.frame;
        self.enqueue(WaitCondition::FrameAdvance, baseline)
    }

    /// Begins a wait for the next image-set delivery, capturing the current
    /// images counter as the baseline.
    pub fn wait_until_images(&mut self) -> (t: WaitTicket)
        requires
            old(self).wf(),
            old(self).spec_next_ticket() < u64::MAX,
        ensures
            final(self).wf(),
            t.id == old(self).spec_next_ticket(),
            final(self).spec_next_ticket() == old(self).spec_next_ticket() + 1,
            final(self).spec_waiters() == old(self).spec_waiters().push(
                (Waiter {
                    ticket: t,
                    condition: WaitCondition::ImagesAdvance,
                    baseline: old(self).spec_counters().images,
                }),
            ),
            final(self).spec_counters() == old(self).spec_counters(),
            final(self).spec_inner() == old(self).spec_inner(),
    {
        let baseline = self.counters.images;
        self.enqueue(WaitCondition::ImagesAdvance, baseline)
    }

    /// Begins a wait for the next device configuration change, capturing the
    /// current device-change counter as the baseline.
    pub fn wait_until_device_change(&mut self) -> (t: WaitTicket)
        requires
            old(self).wf(),
            old(self).spec_next_ticket() < u64::MAX,
        ensures
            final(self).wf(),
            t.id == old(self).spec_next_ticket(),
            final(self).spec_next_ticket() == old(self).spec_next_ticket() + 1,
            final(self).spec_waiters() == old(self).spec_waiters().push(
                (Waiter {
                    ticket: t,
                    condition: WaitCondition::DeviceChangeAdvance,
                    baseline: old(self).spec_counters().device_change,
                }),
            ),
            final(self).spec_counters() == old(self).spec_counters(),
            final(self).spec_inner() == old(self).spec_inner(),
    {
        let baseline = self.counters.device_change;
        self.enqueue(WaitCondition::DeviceChangeAdvance, baseline)
    }

    /// Returns the occurrence counters.
    pub fn counters(&self) -> (k: WaitCounters)
        ensures
            k == self.spec_counters(),
    {
        self.counters
    }

    /// Returns whether a wait is still pending under the given ticket.
    pub fn is_pending(&self, t: WaitTicket) -> (r: bool)
        ensures
            r == exists|i: int| 0 <= i < self.spec_waiters().len()
                && (#[trigger] self.spec_waiters()[i]).ticket == t,
    {
        let n = self.waiters.len();
        let mut i: usize = 0;
        while i < n
            invariant
                i <= n,
                n == self.spec_waiters().len(),
                forall|k: int| 0 <= k < i ==> (#[trigger] self.spec_waiters()[k]).ticket != t,
            decreases n - i,
        {
            if self.waiters[i].ticket.id == t.id {
                return true;
            }
            i = i + 1;
        }
        false
    }

    /// Registers a listener on the wrapped controller; see
    /// [`Controller::add_listener`].
    pub fn add_listener(&mut self, listener: L) -> (token: ListenerToken)
        requires
            old(self).wf(),
            !old(self).spec_torn_down(),
            old(self).spec_inner().spec_next_token() < u64::MAX,
        ensures
            final(self).wf(),
            !final(self).spec_torn_down(),
            token.spec_id() == old(self).spec_inner().spec_next_token(),
            final(self).tokens() == old(self).tokens().push(token.spec_id()),
            final(self).histories() == old(self).histories().push(seq![Event::Init]),
            final(self).spec_session() == old(self).spec_session(),
            final(self).spec_counters() == old(self).spec_counters(),
            final(self).spec_waiters() == old(self).spec_waiters(),
            final(self).spec_next_ticket() == old(self).spec_next_ticket(),
    {
        self.inner.add_listener(listener)
    }

    /// Returns a read-only view of the session state.
    pub fn session(&self) -> (s: &ControllerRef)
        requires
            !self.spec_torn_down(),
        ensures
            *s == self.spec_session(),
    {
        self.inner.session()
    }

    /// Returns the wrapped controller.
    pub fn controller(&self) -> (c: &Controller<L>)
        ensures
            *c == self.spec_inner(),
    {
        &self.inner
    }

    /// Returns the wrapped controller mutably, for recording frames and
    /// images, setting policies, or registering listeners directly.
    ///
    /// Events delivered straight to the wrapped controller bypass the wait
    /// layer; deliver through [`ManagedController::deliver`] to drive both.
    pub fn controller_mut(&mut self) -> (c: &mut Controller<L>)
        ensures
            *c == old(self).spec_inner(),
            final(self).spec_inner() == *final(c),
            final(self).spec_counters() == old(self).spec_counters(),
            final(self).spec_waiters() == old(self).spec_waiters(),
            final(self).spec_next_ticket() == old(self).spec_next_ticket(),
    {
        &mut self.inner
    }

    /// Tears the wrapped controller down; every registered listener receives
    /// `Exit` exactly once, and nothing can be delivered afterwards. Waits
    /// still pending are never released.
    pub fn teardown(&mut self)
        requires
            old(self).wf(),
            !old(self).spec_torn_down(),
        ensures
            final(self).wf(),
            final(self).spec_torn_down(),
            final(self).tokens() == old(self).tokens(),
            final(self).histories().len() == old(self).histories().len(),
            forall|k: int| 0 <= k < old(self).histories().len() ==>
                final(self).histories()[k] == old(self).histories()[k].push(Event::Exit),
            final(self).spec_session() == old(self).spec_session(),
            final(self).spec_counters() == old(self).spec_counters(),
            final(self).spec_waiters() == old(self).spec_waiters(),
            final(self).spec_next_ticket() == old(self).spec_next_ticket(),
    {
        self.inner.teardown();
    }

    /// Returns whether the wrapped controller has been torn down.
    pub fn is_torn_down(&self) -> (r: bool)
        ensures
            r == self.spec_torn_down(),
    {
        self.inner.is_torn_down()
    }
}

/// Distinct tickets stay distinct among the retained waiters.
proof fn lemma_retained_distinct(ws: Seq<Waiter>, f: FlagsView, k: CountersView, a: int, b: int)
    requires
        forall|i: int, j: int| 0 <= i < j < ws.len() ==> ws[i].ticket.id != ws[j].ticket.id,
        0 <= a < b < retained_of(ws, f, k).len(),
    ensures
        retained_of(ws, f, k)[a].ticket.id != retained_of(ws, f, k)[b].ticket.id,
    decreases ws.len(),
{
    if ws.len() > 0 {
        let init = retained_of(ws.drop_last(), f, k);
        if !waiter_ready(ws.last(), f, k) && b == init.len() {
            lemma_retained_of_props(ws.drop_last(), f, k);
            let w = init[a];
            let j = choose|j: int| 0 <= j < ws.drop_last().len() && ws.drop_last()[j] == w;
            assert(ws[j] == w);
            assert(ws[j].ticket.id != ws[ws.len() - 1].ticket.id);
        } else {
            lemma_retained_distinct(ws.drop_last(), f, k, a, b);
        }
    }
}

} // verus!
