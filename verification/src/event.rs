//! The two kinds of readiness, and sets of them.

use vstd::prelude::*;

verus! {

/// A kind of readiness of a descriptor.
#[derive(Clone, Copy, Debug, PartialEq, Eq, Structural)]
pub enum Event {
    Read,
    Write,
}

/// A set of events.
#[derive(Clone, Copy, Debug, PartialEq, Eq, Structural)]
pub struct EventSet {
    pub read: bool,
    pub write: bool,
}

impl EventSet {
    /// Whether `event` is in the set.
    pub open spec fn has(self, event: Event) -> bool {
        match event {
            Event::Read => self.read,
            Event::Write => self.write,
        }
    }

    /// The set with `event` added.
    pub open spec fn with(self, event: Event) -> EventSet {
        match event {
            Event::Read => EventSet { read: true, write: self.write },
            Event::Write => EventSet { read: self.read, write: true },
        }
    }

    /// The set with `event` taken out.
    pub open spec fn without(self, event: Event) -> EventSet {
        match event {
            Event::Read => EventSet { read: false, write: self.write },
            Event::Write => EventSet { read: self.read, write: false },
        }
    }

    /// The set that holds no event.
    pub fn empty() -> (set: EventSet)
        ensures
            !set.read,
            !set.write,
    {
        EventSet { read: false, write: false }
    }

    pub fn contains(&self, event: Event) -> (found: bool)
        ensures
            found == self.has(event),
    {
        match event {
            Event::Read => self.read,
            Event::Write => self.write,
        }
    }

    pub fn insert(&mut self, event: Event)
        ensures
            *final(self) == old(self).with(event),
    {
        match event {
            Event::Read => {
                self.read = true;
            },
            Event::Write => {
                self.write = true;
            },
        }
    }

    pub fn remove(&mut self, event: Event)
        ensures
            *final(self) == old(self).without(event),
    {
        match event {
            Event::Read => {
                self.read = false;
            },
            Event::Write => {
                self.write = false;
            },
        }
    }
}

} // verus!
