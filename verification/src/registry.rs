//! The state an application shares with other threads: render requests,
//! queued persistent messages, mode-switch requests and the screen mode.

use vstd::prelude::*;
use std::collections::HashMap;
use crate::element::IdCounter;

verus! {

/// Identifier of a running application; 0 stands for "no application".
#[derive(Debug, Clone, Copy, PartialEq, Eq, Structural)]
pub struct AppId(u64);

impl AppId {
    /// The raw value.
    pub closed spec fn value(self) -> u64 {
        self.0
    }

    /// A new id: the next value of the counter, which advances.
    pub fn new(counter: &mut IdCounter) -> (id: Self)
        ensures
            id.value() == old(counter).next,
            final(counter).next == (if old(counter).next == u64::MAX {
                0
            } else {
                (old(counter).next + 1) as u64
            }),
    {
        AppId(counter.fetch_next())
    }

    /// The id with the given raw value; none for 0, which stands for "no app".
    pub fn from_raw(raw: u64) -> (id: Option<Self>)
        ensures
            raw == 0 ==> id is None,
            raw != 0 ==> (id matches Some(a) && a.value() == raw),
    {
        if raw == 0 {
            None
        } else {
            Some(AppId(raw))
        }
    }

    /// The raw value.
    pub fn raw(self) -> (r: u64)
        ensures
            r == self.value(),
    {
        self.0
    }
}

/// Mode switch direction.
#[derive(Debug, Clone, Copy, PartialEq, Eq, Structural)]
pub enum ModeSwitch {
    /// Switch to alternate screen (fullscreen)
    EnterAltScreen,
    /// Switch to inline mode
    ExitAltScreen,
}

/// The switch a frame performs for a request, given whether the alternate
/// screen is in use: entering it only from inline mode, leaving it only
/// from the alternate screen; a request for the mode in use does nothing.
pub open spec fn switch_for(request: ModeSwitch, alt: bool) -> Option<ModeSwitch> {
    match request {
        ModeSwitch::EnterAltScreen => if alt {
            None
        } else {
            Some(ModeSwitch::EnterAltScreen)
        },
        ModeSwitch::ExitAltScreen => if alt {
            Some(ModeSwitch::ExitAltScreen)
        } else {
            None
        },
    }
}

/// The screen mode after a frame has handled a request.
pub open spec fn alt_after(request: ModeSwitch, alt: bool) -> bool {
    match switch_for(request, alt) {
        Some(ModeSwitch::EnterAltScreen) => true,
        Some(ModeSwitch::ExitAltScreen) => false,
        None => alt,
    }
}

/// The switch to perform (see `switch_for`).
pub fn switch_to_perform(request: ModeSwitch, alt: bool) -> (r: Option<ModeSwitch>)
    ensures
        r == switch_for(request, alt),
{
    match request {
        ModeSwitch::EnterAltScreen => if alt {
            None
        } else {
            Some(ModeSwitch::EnterAltScreen)
        },
        ModeSwitch::ExitAltScreen => if alt {
            Some(ModeSwitch::ExitAltScreen)
        } else {
            None
        },
    }
}

/// Whether a frame prints the queued persistent messages: only in inline
/// mode (in the alternate screen they are dropped).
pub fn prints_messages(alt: bool) -> (r: bool)
    ensures
        r == !alt,
{
    !alt
}

/// A handled request always leaves the terminal in the requested mode, and
/// handling it again changes nothing.
pub proof fn law_switch_reaches_requested_mode(request: ModeSwitch, alt: bool)
    ensures
        alt_after(request, alt) == (request == ModeSwitch::EnterAltScreen),
        switch_for(request, alt_after(request, alt)) is None,
{
}

/// The state a running application shares with other threads.
pub struct RuntimeState<T> {
    render_flag: bool,
    println_queue: Vec<T>,
    mode_switch_request: Option<ModeSwitch>,
    alt_screen: bool,
}

impl<T> RuntimeState<T> {
    /// Whether a render has been requested.
    pub closed spec fn render_pending(&self) -> bool {
        self.render_flag
    }

    /// The queued messages, oldest first.
    pub closed spec fn queued(&self) -> Seq<T> {
        self.println_queue@
    }

    /// The pending mode-switch request.
    pub closed spec fn pending_switch(&self) -> Option<ModeSwitch> {
        self.mode_switch_request
    }

    /// Whether the alternate screen is in use.
    pub closed spec fn alt(&self) -> bool {
        self.alt_screen
    }

    /// A fresh state: a render is requested (the first frame), nothing is
    /// queued, no switch is pending.
    pub fn new(alternate_screen: bool) -> (s: Self)
        ensures
            s.render_pending(),
            s.queued() == Seq::<T>::empty(),
            s.pending_switch() is None,
            s.alt() == alternate_screen,
    {
        let s = RuntimeState {
            render_flag: true,
            println_queue: Vec::new(),
            mode_switch_request: None,
            alt_screen: alternate_screen,
        };
        assert(s.queued() =~= Seq::<T>::empty());
        s
    }

    /// Records the screen mode.
    pub fn set_alt_screen_state(&mut self, value: bool)
        ensures
            final(self).alt() == value,
            final(self).render_pending() == old(self).render_pending(),
            final(self).queued() == old(self).queued(),
            final(self).pending_switch() == old(self).pending_switch(),
    {
        self.alt_screen = value;
    }

    /// Whether a render has been requested.
    pub fn render_requested(&self) -> (r: bool)
        ensures
            r == self.render_pending(),
    {
        self.render_flag
    }

    /// Clears the render request.
    pub fn clear_render_request(&mut self)
        ensures
            !final(self).render_pending(),
            final(self).queued() == old(self).queued(),
            final(self).pending_switch() == old(self).pending_switch(),
            final(self).alt() == old(self).alt(),
    {
        self.render_flag = false;
    }

    /// Takes the pending mode-switch request, leaving none.
    pub fn take_mode_switch_request(&mut self) -> (r: Option<ModeSwitch>)
        ensures
            r == old(self).pending_switch(),
            final(self).pending_switch() is None,
            final(self).render_pending() == old(self).render_pending(),
            final(self).queued() == old(self).queued(),
            final(self).alt() == old(self).alt(),
    {
        let r = self.mode_switch_request;
        self.mode_switch_request = None;
        r
    }

    /// Takes the queued messages, oldest first, leaving none.
    pub fn take_println_messages(&mut self) -> (r: Vec<T>)
        ensures
            r@ == old(self).queued(),
            final(self).queued() == Seq::<T>::empty(),
            final(self).render_pending() == old(self).render_pending(),
            final(self).pending_switch() == old(self).pending_switch(),
            final(self).alt() == old(self).alt(),
    {
        let mut taken: Vec<T> = Vec::new();
        std::mem::swap(&mut taken, &mut self.println_queue);
        assert(self.println_queue@ =~= Seq::<T>::empty());
        taken
    }

    /// Requests a render.
    pub fn request_render(&mut self)
        ensures
            final(self).render_pending(),
            final(self).queued() == old(self).queued(),
            final(self).pending_switch() == old(self).pending_switch(),
            final(self).alt() == old(self).alt(),
    {
        self.render_flag = true;
    }

    /// Queues a persistent message and requests a render.
    pub fn println(&mut self, message: T)
        ensures
            final(self).queued() == old(self).queued().push(message),
            final(self).render_pending(),
            final(self).pending_switch() == old(self).pending_switch(),
            final(self).alt() == old(self).alt(),
    {
        self.println_queue.push(message);
        self.request_render();
    }

    /// Requests the switch to the alternate screen (replacing any pending
    /// request) and a render.
    pub fn enter_alt_screen(&mut self)
        ensures
            final(self).pending_switch() == Some(ModeSwitch::EnterAltScreen),
            final(self).render_pending(),
            final(self).queued() == old(self).queued(),
            final(self).alt() == old(self).alt(),
    {
        self.mode_switch_request = Some(ModeSwitch::EnterAltScreen);
        self.request_render();
    }

    /// Requests the switch to inline mode (replacing any pending request)
    /// and a render.
    pub fn exit_alt_screen(&mut self)
        ensures
            final(self).pending_switch() == Some(ModeSwitch::ExitAltScreen),
            final(self).render_pending(),
            final(self).queued() == old(self).queued(),
            final(self).alt() == old(self).alt(),
    {
        self.mode_switch_request = Some(ModeSwitch::ExitAltScreen);
        self.request_render();
    }

    /// Whether the alternate screen is in use.
    pub fn is_alt_screen(&self) -> (r: bool)
        ensures
            r == self.alt(),
    {
        self.alt_screen
    }
}

/// The sink of the current application: none when no application is
/// current (0) or the current one is not registered.
pub open spec fn current_sink_of<S>(apps: Map<u64, S>, current: u64) -> Option<S> {
    if current != 0 && apps.contains_key(current) {
        Some(apps[current])
    } else {
        None
    }
}

/// The running applications, each with the sink that cross-thread requests
/// go to, and which of them is current.
pub struct AppRegistry<S> {
    apps: HashMap<u64, S>,
    current: u64,
}

impl<S> AppRegistry<S> {
    /// The registered sinks by raw application id.
    pub closed spec fn apps(&self) -> Map<u64, S> {
        self.apps@
    }

    /// The raw id of the current application; 0 for none.
    pub closed spec fn current(&self) -> u64 {
        self.current
    }

    /// No application registered, none current.
    pub fn new() -> (r: Self)
        ensures
            r.apps() == Map::<u64, S>::empty(),
            r.current() == 0,
    {
        AppRegistry { apps: HashMap::new(), current: 0 }
    }

    /// Registers an application's sink and makes it the current application.
    pub fn register(&mut self, id: AppId, sink: S)
        ensures
            final(self).apps() == old(self).apps().insert(id.value(), sink),
            final(self).current() == id.value(),
    {
        broadcast use vstd::std_specs::hash::group_hash_axioms;

        self.apps.insert(id.0, sink);
        self.current = id.0;
    }

    /// Removes an application; when it was the current one, no application
    /// is current afterwards.
    pub fn unregister(&mut self, id: AppId)
        ensures
            final(self).apps() == old(self).apps().remove(id.value()),
            final(self).current() == (if old(self).current() == id.value() {
                0
            } else {
                old(self).current()
            }),
    {
        broadcast use vstd::std_specs::hash::group_hash_axioms;

        let _ = self.apps.remove(&id.0);
        if self.current == id.0 {
            self.current = 0;
        }
    }

    /// The sink of the current application, if any (see `current_sink_of`).
    pub fn current_sink(&self) -> (r: Option<&S>)
        ensures
            r matches Some(s) ==> current_sink_of(self.apps(), self.current()) == Some(*s),
            r is None ==> current_sink_of(self.apps(), self.current()) is None,
    {
        broadcast use vstd::std_specs::hash::group_hash_axioms;

        if self.current == 0 {
            return None;
        }
        self.apps.get(&self.current)
    }
}

/// A registered application is current and its sink receives the requests
/// until it is unregistered; after that no application is current.
pub proof fn law_register_then_unregister<S>(apps: Map<u64, S>, id: u64, sink: S)
    requires
        id != 0,
    ensures
        current_sink_of(apps.insert(id, sink), id) == Some(sink),
        current_sink_of(apps.insert(id, sink).remove(id), 0) is None,
{
}

} // verus!
