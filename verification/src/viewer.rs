use vstd::prelude::*;
use crate::camera::{CameraRig, Key, key_command, after_key, initial_rig};
use crate::surface::{PhysicalSize, is_drawable};

verus! {

/// The window events the viewer reacts to; every other event is `Other`.
#[derive(Clone, Copy, Debug, PartialEq, Eq)]
pub enum WindowEvent {
    /// A key went down; keys the viewer does not tell apart are `Key::Other`.
    KeyPressed(Key),
    CloseRequested,
    Resized(PhysicalSize),
    RedrawRequested,
    Other,
}

/// What the front end has to do after an event.
#[derive(Clone, Copy, Debug, PartialEq, Eq)]
pub enum EventResponse {
    /// The event moved the camera rig; nothing else to do.
    CameraMoved,
    /// Leave the event loop.
    Exit,
    /// Reconfigure the surface and the depth texture at this size.
    Reconfigure(PhysicalSize),
    /// Ask for another frame, and, if `render`, update and render this one.
    Redraw { render: bool },
    /// Nothing to do.
    Ignored,
}

/// How presenting the last frame went.
#[derive(Clone, Copy, Debug, PartialEq, Eq)]
pub enum RenderStatus {
    Presented,
    Lost,
    Outdated,
    OutOfMemory,
    Other,
    Timeout,
}

/// What the front end has to do after rendering a frame.
#[derive(Clone, Copy, Debug, PartialEq, Eq)]
pub enum RenderResponse {
    Continue,
    /// Reconfigure the surface and the depth texture at this size.
    Reconfigure(PhysicalSize),
    /// Leave the event loop.
    Exit,
    /// The frame took too long; report it and go on.
    Warn,
}

/// The viewer's state that its decisions depend on.
#[derive(Clone, Copy, Debug, PartialEq, Eq)]
pub struct ViewState {
    pub rig: CameraRig,
    /// The size the surface is configured with.
    pub size: PhysicalSize,
    /// Whether a resize event has arrived; frames are rendered only after one.
    pub surface_configured: bool,
}

/// The state and what a resize to `new_size` asks for: a drawable size is
/// taken over, any other leaves the state as it was.
pub open spec fn resized(s: ViewState, new_size: PhysicalSize) -> (ViewState, bool) {
    if is_drawable(new_size) {
        (ViewState { size: new_size, ..s }, true)
    } else {
        (s, false)
    }
}

/// The state after an event, and the response to it.
pub open spec fn on_event(s: ViewState, e: WindowEvent) -> (ViewState, EventResponse) {
    match e {
        WindowEvent::KeyPressed(key) => if key_command(key) is Some {
            (ViewState { rig: after_key(s.rig, key), ..s }, EventResponse::CameraMoved)
        } else if key == Key::Escape {
            (s, EventResponse::Exit)
        } else {
            (s, EventResponse::Ignored)
        },
        WindowEvent::CloseRequested => (s, EventResponse::Exit),
        WindowEvent::Resized(size) => {
            let t = ViewState { surface_configured: true, ..s };
            if is_drawable(size) {
                (resized(t, size).0, EventResponse::Reconfigure(size))
            } else {
                (t, EventResponse::Ignored)
            }
        },
        WindowEvent::RedrawRequested => (s, EventResponse::Redraw { render: s.surface_configured }),
        WindowEvent::Other => (s, EventResponse::Ignored),
    }
}

/// The state after a frame was presented with the given status, and the response.
pub open spec fn on_render(s: ViewState, status: RenderStatus) -> (ViewState, RenderResponse) {
    match status {
        RenderStatus::Presented => (s, RenderResponse::Continue),
        RenderStatus::Lost | RenderStatus::Outdated => if is_drawable(s.size) {
            (s, RenderResponse::Reconfigure(s.size))
        } else {
            (s, RenderResponse::Continue)
        },
        RenderStatus::OutOfMemory | RenderStatus::Other => (s, RenderResponse::Exit),
        RenderStatus::Timeout => (s, RenderResponse::Warn),
    }
}

impl ViewState {
    /// The state of a viewer whose window has the given size: the rig at its
    /// start, the surface not yet configured.
    pub fn new(size: PhysicalSize) -> (s: ViewState)
        ensures
            s.rig == initial_rig(),
            s.size == size,
            !s.surface_configured,
    {
        ViewState { rig: CameraRig::new(), size, surface_configured: false }
    }

    /// Takes over a new window size when neither side is zero; tells whether it did.
    pub fn resize(&mut self, new_size: PhysicalSize) -> (changed: bool)
        ensures
            (*final(self), changed) == resized(*old(self), new_size),
    {
        if new_size.is_drawable() {
            self.size = new_size;
            true
        } else {
            false
        }
    }

    /// Lets the camera rig handle an event; tells whether it did.
    pub fn input(&mut self, event: &WindowEvent) -> (handled: bool)
        ensures
            handled == (*event matches WindowEvent::KeyPressed(k) && key_command(k) is Some),
            final(self).rig == (match *event {
                WindowEvent::KeyPressed(k) => after_key(old(self).rig, k),
                _ => old(self).rig,
            }),
            final(self).size == old(self).size,
            final(self).surface_configured == old(self).surface_configured,
    {
        match event {
            WindowEvent::KeyPressed(key) => self.rig.press(*key),
            _ => false,
        }
    }

    /// Decides what an event of the viewer's window leads to.
    pub fn handle_event(&mut self, event: &WindowEvent) -> (response: EventResponse)
        ensures
            (*final(self), response) == on_event(*old(self), *event),
    {
        if self.input(event) {
            return EventResponse::CameraMoved;
        }
        match event {
            WindowEvent::CloseRequested => EventResponse::Exit,
            WindowEvent::KeyPressed(Key::Escape) => EventResponse::Exit,
            WindowEvent::Resized(size) => {
                self.surface_configured = true;
                if self.resize(*size) {
                    EventResponse::Reconfigure(*size)
                } else {
                    EventResponse::Ignored
                }
            },
            WindowEvent::RedrawRequested => EventResponse::Redraw { render: self.surface_configured },
            _ => EventResponse::Ignored,
        }
    }

    /// Decides what to do after a frame was presented with the given status:
    /// a lost or outdated surface is reconfigured at the current size, a
    /// device out of memory (or another failure) ends the loop, a timeout
    /// is reported.
    pub fn handle_render_status(&mut self, status: RenderStatus) -> (response: RenderResponse)
        ensures
            (*final(self), response) == on_render(*old(self), status),
    {
        match status {
            RenderStatus::Presented => RenderResponse::Continue,
            RenderStatus::Lost | RenderStatus::Outdated => {
                let size = self.size;
                if self.resize(size) {
                    RenderResponse::Reconfigure(size)
                } else {
                    RenderResponse::Continue
                }
            },
            RenderStatus::OutOfMemory | RenderStatus::Other => RenderResponse::Exit,
            RenderStatus::Timeout => RenderResponse::Warn,
        }
    }
}

/// Once a resize event has arrived the surface counts as configured for good,
/// and a resize event configures it whatever size it carries.
pub proof fn lemma_configured_is_permanent(s: ViewState, e: WindowEvent)
    ensures
        s.surface_configured ==> on_event(s, e).0.surface_configured,
        e is Resized ==> on_event(s, e).0.surface_configured,
{
}

/// A frame is rendered on a redraw request exactly when the surface has been
/// configured; the request for the next frame is made either way.
pub proof fn lemma_render_only_when_configured(s: ViewState)
    ensures
        on_event(s, WindowEvent::RedrawRequested).1 == (EventResponse::Redraw { render: s.surface_configured }),
        on_event(s, WindowEvent::RedrawRequested).0 == s,
{
}

/// Closing the window and pressing Escape both end the loop and change nothing.
pub proof fn lemma_exit_events(s: ViewState)
    ensures
        on_event(s, WindowEvent::CloseRequested) == (s, EventResponse::Exit),
        on_event(s, WindowEvent::KeyPressed(Key::Escape)) == (s, EventResponse::Exit),
{
}

/// The size the surface is configured with is always drawable once it has
/// been drawable: events and render results never put a zero side in it.
pub proof fn lemma_size_stays_drawable(s: ViewState, e: WindowEvent, status: RenderStatus)
    requires
        is_drawable(s.size),
    ensures
        is_drawable(on_event(s, e).0.size),
        is_drawable(on_render(s, status).0.size),
{
}

/// Resizing twice to the same size is the same as resizing once.
pub proof fn lemma_resize_idempotent(s: ViewState, size: PhysicalSize)
    ensures
        resized(resized(s, size).0, size).0 == resized(s, size).0,
{
}

/// Only key events can move the camera rig, and only bound keys do.
pub proof fn lemma_only_bound_keys_move_camera(s: ViewState, e: WindowEvent)
    requires
        !(e matches WindowEvent::KeyPressed(k) && key_command(k) is Some),
    ensures
        on_event(s, e).0.rig == s.rig,
        on_event(s, e).1 != EventResponse::CameraMoved,
{
}

/// A lost or outdated surface is reconfigured at the size it had, and the
/// state does not change.
pub proof fn lemma_lost_surface_reconfigured(s: ViewState)
    requires
        is_drawable(s.size),
    ensures
        on_render(s, RenderStatus::Lost) == (s, RenderResponse::Reconfigure(s.size)),
        on_render(s, RenderStatus::Outdated) == (s, RenderResponse::Reconfigure(s.size)),
{
}

/// Every resize event marks the surface configured, whatever the state; a
/// drawable size becomes the configured size and is asked to be applied, a
/// size with a zero side is only noted. The camera rig is untouched.
pub proof fn lemma_resize_event(s: ViewState, z: PhysicalSize)
    ensures
        z.width > 0 && z.height > 0 ==> on_event(s, WindowEvent::Resized(z))
            == (ViewState { rig: s.rig, size: z, surface_configured: true }, EventResponse::Reconfigure(z)),
        !(z.width > 0 && z.height > 0) ==> on_event(s, WindowEvent::Resized(z))
            == (ViewState { rig: s.rig, size: s.size, surface_configured: true }, EventResponse::Ignored),
{
}

/// A resize takes a size with no zero side and leaves the rest of the state;
/// any other size leaves the state unchanged and is refused.
pub proof fn lemma_resize(s: ViewState, z: PhysicalSize)
    ensures
        z.width > 0 && z.height > 0 ==> resized(s, z)
            == (ViewState { rig: s.rig, size: z, surface_configured: s.surface_configured }, true),
        !(z.width > 0 && z.height > 0) ==> resized(s, z) == (s, false),
{
}

/// After a frame, from every state: a presented frame goes on, a lost or
/// outdated surface is reconfigured at the current size (when that size has
/// no zero side), running out of memory or another failure ends the loop, a
/// timeout is reported; the state never changes.
pub proof fn lemma_render_outcomes(s: ViewState)
    ensures
        on_render(s, RenderStatus::Presented) == (s, RenderResponse::Continue),
        on_render(s, RenderStatus::OutOfMemory) == (s, RenderResponse::Exit),
        on_render(s, RenderStatus::Other) == (s, RenderResponse::Exit),
        on_render(s, RenderStatus::Timeout) == (s, RenderResponse::Warn),
        s.size.width > 0 && s.size.height > 0 ==> on_render(s, RenderStatus::Lost) == (s, RenderResponse::Reconfigure(s.size)),
        s.size.width > 0 && s.size.height > 0 ==> on_render(s, RenderStatus::Outdated) == (s, RenderResponse::Reconfigure(s.size)),
        !(s.size.width > 0 && s.size.height > 0) ==> on_render(s, RenderStatus::Lost) == (s, RenderResponse::Continue),
        !(s.size.width > 0 && s.size.height > 0) ==> on_render(s, RenderStatus::Outdated) == (s, RenderResponse::Continue),
{
}

/// Key events from every state: a bound key moves the rig as the key says and
/// nothing else; Escape ends the loop; other keys are ignored. Events other
/// than keys, resizes, close and redraw requests are ignored.
pub proof fn lemma_key_and_other_events(s: ViewState, k: Key)
    ensures
        key_command(k) is Some ==> on_event(s, WindowEvent::KeyPressed(k))
            == (ViewState { rig: after_key(s.rig, k), size: s.size, surface_configured: s.surface_configured }, EventResponse::CameraMoved),
        k == Key::Escape ==> on_event(s, WindowEvent::KeyPressed(k)) == (s, EventResponse::Exit),
        k == Key::Other ==> on_event(s, WindowEvent::KeyPressed(k)) == (s, EventResponse::Ignored),
        on_event(s, WindowEvent::Other) == (s, EventResponse::Ignored),
{
}

} // verus!
