//! What the reactor keeps for one descriptor.

use vstd::prelude::*;
use core::task::Waker;
use crate::event::{Event, EventSet};
use crate::fds::{Marks, FD_SETSIZE};
use crate::waker::same_task;

verus! {

/// One watched descriptor: the readiness that was seen and not yet handed
/// out, and for each event at most one waker that waits for it.
pub struct Registration {
    pub fd: i32,
    pub events: EventSet,
    pub read_waker: Option<Waker>,
    pub write_waker: Option<Waker>,
}

impl Registration {
    /// The registration of `fd` as it starts: nothing seen, nobody waiting.
    pub open spec fn fresh(fd: i32) -> Registration {
        Registration {
            fd,
            events: EventSet { read: false, write: false },
            read_waker: None,
            write_waker: None,
        }
    }

    /// What holds of every registration: its descriptor fits the readiness
    /// bitsets, and nobody waits for an event that was seen and not yet
    /// asked for.
    pub open spec fn wf(self) -> bool {
        &&& 0 <= self.fd < FD_SETSIZE
        &&& self.events.read ==> self.read_waker.is_none()
        &&& self.events.write ==> self.write_waker.is_none()
    }

    /// The waker that waits for `event`, if any.
    pub open spec fn waker(self, event: Event) -> Option<Waker> {
        match event {
            Event::Read => self.read_waker,
            Event::Write => self.write_waker,
        }
    }

    /// The registration with `slot` in the place of the waker for `event`.
    pub open spec fn with_waker(self, event: Event, slot: Option<Waker>) -> Registration {
        match event {
            Event::Read => Registration { read_waker: slot, ..self },
            Event::Write => Registration { write_waker: slot, ..self },
        }
    }

    /// The registration after `event` was asked for: it is no longer seen.
    pub open spec fn fetched(self, event: Event) -> Registration {
        Registration { events: self.events.without(event), ..self }
    }

    /// The registration after `stored` was set to wait for `event`.
    pub open spec fn armed(self, event: Event, stored: Waker) -> Registration {
        self.fetched(event).with_waker(event, Some(stored))
    }

    /// The waker that loses its place when another is set to wait for
    /// `event` on behalf of `given`, and that has to be woken for it: the
    /// one that waited, unless it wakes the same task as `given`.
    pub open spec fn displaced(self, event: Event, given: Waker) -> Option<Waker> {
        match self.waker(event) {
            Some(previous) => if same_task(previous, given) {
                None
            } else {
                Some(previous)
            },
            None => None,
        }
    }

    /// The registration after the poll primitive reported `event`, if it
    /// did: the event is seen, and nobody waits for it any more.
    pub open spec fn fired(self, event: Event, marks: Marks) -> Registration {
        if marks.marked(self.fd as int, event) {
            Registration { events: self.events.with(event), ..self }.with_waker(event, None)
        } else {
            self
        }
    }

    /// The waker to wake when the poll primitive reported `event`, if it did
    /// and one waited.
    pub open spec fn due(self, event: Event, marks: Marks) -> Option<Waker> {
        if marks.marked(self.fd as int, event) {
            self.waker(event)
        } else {
            None
        }
    }

    /// The registration after a poll: each reported event is seen, and its
    /// waker is gone.
    pub open spec fn folded(self, marks: Marks) -> Registration {
        self.fired(Event::Read, marks).fired(Event::Write, marks)
    }

    /// The wakers to wake after a poll, the one for reading first.
    pub open spec fn woken_by(self, marks: Marks) -> Seq<Waker> {
        let read = match self.due(Event::Read, marks) {
            Some(waker) => seq![waker],
            None => seq![],
        };
        let write = match self.due(Event::Write, marks) {
            Some(waker) => seq![waker],
            None => seq![],
        };
        read + write
    }

    /// A registration of `fd` with nothing seen and nobody waiting.
    pub fn new(fd: i32) -> (registration: Registration)
        ensures
            registration == Registration::fresh(fd),
    {
        Registration { fd, events: EventSet::empty(), read_waker: None, write_waker: None }
    }

    /// Whether a waker waits for `event`.
    pub fn has_waker(&self, event: Event) -> (waiting: bool)
        ensures
            waiting == self.waker(event).is_some(),
    {
        match event {
            Event::Read => self.read_waker.is_some(),
            Event::Write => self.write_waker.is_some(),
        }
    }

    /// Says whether `event` was seen, and forgets that it was.
    pub fn fetch(&mut self, event: Event) -> (seen: bool)
        ensures
            seen == old(self).events.has(event),
            *final(self) == old(self).fetched(event),
    {
        let seen = self.events.contains(event);
        self.events.remove(event);
        seen
    }

    /// Takes the waker that waits for `event` out of its place.
    fn take_waker(&mut self, event: Event) -> (taken: Option<Waker>)
        ensures
            taken == old(self).waker(event),
            *final(self) == old(self).with_waker(event, None),
    {
        match event {
            Event::Read => self.read_waker.take(),
            Event::Write => self.write_waker.take(),
        }
    }

    /// Sets `stored` to wait for `event` on behalf of `given`, starting from
    /// the event not being seen. Returns the waker that waited before, if it
    /// has to be woken because it lost its place to another task.
    pub fn arm(&mut self, event: Event, given: &Waker, stored: Waker) -> (displaced: Option<Waker>)
        ensures
            *final(self) == old(self).armed(event, stored),
            displaced == old(self).displaced(event, *given),
    {
        self.events.remove(event);
        let previous = self.take_waker(event);
        match event {
            Event::Read => {
                self.read_waker = Some(stored);
            },
            Event::Write => {
                self.write_waker = Some(stored);
            },
        }
        match previous {
            Some(previous) => if previous.will_wake(given) {
                None
            } else {
                Some(previous)
            },
            None => None,
        }
    }

    /// Takes note that the poll primitive reported `event`: the event is
    /// seen from now on, and the waker that waited for it is returned, to
    /// be woken.
    pub fn fire(&mut self, event: Event) -> (due: Option<Waker>)
        ensures
            due == old(self).waker(event),
            *final(self) == (Registration { events: old(self).events.with(event), ..*old(self) }).with_waker(
                event,
                None,
            ),
    {
        self.events.insert(event);
        self.take_waker(event)
    }
}

} // verus!
