use vstd::prelude::*;
use crate::ControllerRef;

verus! {

/// One occurrence reported by the device service.
///
/// An event carries no payload of its own: a handler reads whatever detail it
/// needs (the latest frame, the current images) from the session state passed
/// to it at call time.
#[derive(Clone, Copy, Debug, PartialEq, Eq, Structural)]
pub enum Event {
    /// The listener has been added to a controller. Raised once, at
    /// registration, before any other event for that listener.
    Init,
    /// A tracking device has been connected.
    Connect,
    /// A tracking device has been disconnected.
    Disconnect,
    /// The listener is being removed, because its controller is torn down.
    /// Raised once; no further events follow it.
    Exit,
    /// A new frame of tracking data is available.
    Frame,
    /// The application has gained device focus.
    FocusGained,
    /// The application has lost device focus.
    FocusLost,
    /// The connection to the tracking service has been established.
    ServiceConnect,
    /// The connection to the tracking service has been lost.
    ServiceDisconnect,
    /// The device configuration has changed.
    DeviceChange,
    /// A new set of camera images is available.
    Images,
}

/// An event listener: one handler per event kind, each a no-op by default.
///
/// Handlers are invoked synchronously by the dispatch bridge, on whatever
/// thread delivers the event — generally not the thread that registered the
/// listener, hence the `Send` bound — and receive a read-only view of the
/// session state; they must not retain it past the call.
pub trait Listener: Send + 'static {
    /// Called when the listener is added to a controller.
    fn on_init(&mut self, controller: &ControllerRef) {
    }

    /// Called when a tracking device is connected.
    fn on_connect(&mut self, controller: &ControllerRef) {
    }

    /// Called when a tracking device is disconnected.
    fn on_disconnect(&mut self, controller: &ControllerRef) {
    }

    /// Called when the controller owning this listener is torn down.
    fn on_exit(&mut self, controller: &ControllerRef) {
    }

    /// Called when a new frame of tracking data is available.
    fn on_frame(&mut self, controller: &ControllerRef) {
    }

    /// Called when the application gains device focus.
    fn on_focus_gained(&mut self, controller: &ControllerRef) {
    }

    /// Called when the application loses device focus.
    fn on_focus_lost(&mut self, controller: &ControllerRef) {
    }

    /// Called when the connection to the tracking service is established.
    fn on_service_connect(&mut self, controller: &ControllerRef) {
    }

    /// Called when the connection to the tracking service is lost.
    fn on_service_disconnect(&mut self, controller: &ControllerRef) {
    }

    /// Called when the device configuration changes.
    fn on_device_change(&mut self, controller: &ControllerRef) {
    }

    /// Called when a new set of camera images is available.
    fn on_images(&mut self, controller: &ControllerRef) {
    }
}

} // verus!
