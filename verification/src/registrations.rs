//! The registration table: which descriptors are watched, what was seen of
//! them, who waits for them, and the descriptor of the notification channel
//! that interrupts a poll.

use vstd::prelude::*;
use core::task::Waker;
use crate::error::Error;
use crate::event::Event;
use crate::fds::{Fds, FD_SETSIZE};
use crate::registration::Registration;
use crate::slots;
use crate::slots::held;
use crate::table::{capacity_for, Table};

verus! {

/// The registration table of a reactor that takes up to `N` registrations
/// (and never more than there are descriptors that the readiness bitsets
/// can hold).
pub struct Registrations<const N: usize> {
    vec: heapless::Vec<Registration, FD_SETSIZE>,
    event_fd: Option<i32>,
    waiting: usize,
    woken: Ghost<Seq<Waker>>,
}

impl<const N: usize> View for Registrations<N> {
    type V = Table;

    closed spec fn view(&self) -> Table {
        Table {
            slots: held(self.vec),
            channel: self.event_fd,
            pending: self.waiting as nat,
            woken: self.woken@,
            capacity: capacity_for(N),
        }
    }
}

impl<const N: usize> Registrations<N> {
    /// Whether the table is as every table is.
    pub open spec fn wf(&self) -> bool {
        self@.wf()
    }

    /// An empty table.
    pub fn new() -> (table: Self)
        ensures
            table.wf(),
            table@ == Table::empty(capacity_for(N)),
    {
        Registrations { vec: slots::empty(), event_fd: None, waiting: 0, woken: Ghost(Seq::empty()) }
    }

    /// How many descriptors are registered.
    pub fn len(&self) -> (len: usize)
        ensures
            len == self@.slots.len(),
    {
        slots::as_slice(&self.vec).len()
    }

    /// Where the registration of `fd` stands.
    fn position(&self, fd: i32) -> (found: Option<usize>)
        requires
            self.wf(),
        ensures
            match found {
                Some(index) => self@.has(fd) && index == self@.index_of(fd),
                None => !self@.has(fd),
            },
    {
        let slice = slots::as_slice(&self.vec);
        let mut index: usize = 0;
        while index < slice.len()
            invariant
                self.wf(),
                slice@ == self@.slots,
                index <= slice.len(),
                forall|i: int| 0 <= i < index ==> (#[trigger] self@.slots[i]).fd != fd,
            decreases slice.len() - index,
        {
            if slice[index].fd == fd {
                proof {
                    self@.lemma_index_of(index as int);
                }
                return Some(index);
            }
            index += 1;
        }
        None
    }

    /// Starts to watch `fd`, with nothing seen and nobody waiting.
    pub fn register(&mut self, fd: i32) -> (outcome: Result<(), Error>)
        requires
            old(self).wf(),
        ensures
            final(self).wf(),
            outcome == old(self)@.register_outcome(fd),
            final(self)@ == old(self)@.after_register(fd),
    {
        if fd < 0 || fd >= FD_SETSIZE as i32 {
            return Err(Error::InvalidArgument);
        }
        match self.event_fd {
            Some(channel) => {
                if channel == fd {
                    return Err(Error::InvalidArgument);
                }
            },
            None => {},
        }
        if self.position(fd).is_some() {
            return Err(Error::InvalidArgument);
        }
        if self.len() >= N {
            return Err(Error::ResourceExhausted);
        }
        proof {
            self@.lemma_register_keeps(fd);
        }
        match slots::push(&mut self.vec, Registration::new(fd)) {
            Ok(_) => Ok(()),
            Err(_) => Err(Error::ResourceExhausted),
        }
    }

    /// Stops watching `fd`, and drops whoever waits for it.
    pub fn deregister(&mut self, fd: i32) -> (outcome: Result<(), Error>)
        requires
            old(self).wf(),
        ensures
            final(self).wf(),
            outcome == old(self)@.deregister_outcome(fd),
            final(self)@ == old(self)@.after_deregister(fd),
    {
        match self.position(fd) {
            Some(index) => {
                proof {
                    self@.lemma_deregister_removes(fd);
                }
                slots::swap_remove(&mut self.vec, index);
                Ok(())
            },
            None => Err(Error::NotFound),
        }
    }

    /// Says whether `event` was seen on `fd` since it was last asked for or
    /// waited for, and forgets that it was.
    pub fn fetch(&mut self, fd: i32, event: Event) -> (outcome: Result<bool, Error>)
        requires
            old(self).wf(),
        ensures
            final(self).wf(),
            outcome == old(self)@.fetch_outcome(fd, event),
            final(self)@ == old(self)@.after_fetch(fd, event),
    {
        match self.position(fd) {
            Some(index) => {
                let slot = slots::slot_mut(&mut self.vec, index);
                let seen = slot.fetch(event);
                proof {
                    old(self)@.lemma_same_descriptors(self@, index as int);
                }
                Ok(seen)
            },
            None => Err(Error::NotFound),
        }
    }

    /// Whether a waker waits for `event` on `fd`.
    pub fn has_waker(&self, fd: i32, event: Event) -> (outcome: Result<bool, Error>)
        requires
            self.wf(),
        ensures
            outcome == (if self@.has(fd) {
                Ok::<bool, Error>(self@.slot(fd).waker(event).is_some())
            } else {
                Err::<bool, Error>(Error::NotFound)
            }),
    {
        match self.position(fd) {
            Some(index) => Ok(slots::as_slice(&self.vec)[index].has_waker(event)),
            None => Err(Error::NotFound),
        }
    }

    /// Wakes `waker`, and takes note of it.
    fn deliver(&mut self, waker: Waker)
        ensures
            final(self)@ == (Table { woken: old(self)@.woken.push(waker), ..old(self)@ }),
    {
        self.woken = Ghost(self.woken@.push(waker));
        waker.wake();
    }

    /// Sets `stored` to wait for `event` on the registration at `index`.
    fn arm_at(&mut self, index: usize, event: Event, given: &Waker, stored: Waker)
        requires
            old(self).wf(),
            index < old(self)@.slots.len(),
        ensures
            final(self).wf(),
            final(self)@ == old(self)@.armed(old(self)@.slots[index as int].fd, event, *given, stored),
    {
        proof {
            self@.lemma_index_of(index as int);
        }
        let slot = slots::slot_mut(&mut self.vec, index);
        let displaced = slot.arm(event, given, stored);
        proof {
            old(self)@.lemma_same_descriptors(self@, index as int);
        }
        match displaced {
            Some(previous) => {
                self.deliver(previous);
            },
            None => {},
        }
    }

    /// Sets `stored` to wait for `event` on `fd`, on behalf of `given`.
    ///
    /// A wait starts from the event not being seen. If another waker
    /// waited already, `stored` takes its place, and the other is woken at
    /// once unless it wakes the same task as `given`: no waiter is
    /// stranded.
    pub fn arm(&mut self, fd: i32, event: Event, given: &Waker, stored: Waker) -> (outcome: Result<
        (),
        Error,
    >)
        requires
            old(self).wf(),
        ensures
            final(self).wf(),
            outcome == old(self)@.arm_outcome(fd),
            final(self)@ == old(self)@.after_arm(fd, event, *given, stored),
    {
        match self.position(fd) {
            Some(index) => {
                self.arm_at(index, event, given, stored);
                Ok(())
            },
            None => Err(Error::NotFound),
        }
    }

    /// Sets a copy of `waker` to wait for `event` on `fd`, as `arm` does
    /// with the copy as `stored` and `waker` as `given`.
    pub fn set(&mut self, fd: i32, event: Event, waker: &Waker) -> (outcome: Result<(), Error>)
        requires
            old(self).wf(),
        ensures
            final(self).wf(),
            outcome == old(self)@.arm_outcome(fd),
            exists|stored: Waker| final(self)@ == old(self)@.after_arm(fd, event, *waker, stored),
    {
        match self.position(fd) {
            Some(index) => {
                let stored = waker.clone();
                let ghost copy = stored;
                self.arm_at(index, event, waker, stored);
                assert(self@ == old(self)@.after_arm(fd, event, *waker, copy));
                Ok(())
            },
            None => {
                assert(self@ == old(self)@.after_arm(fd, event, *waker, *waker));
                Err(Error::NotFound)
            },
        }
    }

    /// Takes note of what the poll primitive reported for `event` on the
    /// registration at `index`, and wakes who waited for it.
    fn fire_at(&mut self, index: usize, event: Event, fds: &Fds)
        requires
            old(self).wf(),
            index < old(self)@.slots.len(),
        ensures
            final(self).wf(),
            final(self)@ == old(self)@.fired_at(index as int, event, fds@),
    {
        let slot = slots::slot_mut(&mut self.vec, index);
        if fds.is_set(slot.fd, event) {
            let due = slot.fire(event);
            proof {
                old(self)@.lemma_same_descriptors(self@, index as int);
            }
            match due {
                Some(waker) => {
                    self.deliver(waker);
                },
                None => {},
            }
        } else {
            assert(self@.slots =~= old(self)@.slots);
        }
    }

    /// Folds the outcome of a poll into the table: every event that `fds`
    /// reports for a registered descriptor is seen from now on, and the
    /// waker that waited for it is taken out and woken. A waker is woken
    /// once: who wants to hear of the event again has to wait again.
    pub fn update_events(&mut self, fds: &Fds)
        requires
            old(self).wf(),
        ensures
            final(self).wf(),
            final(self)@ == old(self)@.folded(fds@),
    {
        let count = self.len();
        let mut index: usize = 0;
        while index < count
            invariant
                self.wf(),
                index <= count,
                count == old(self)@.slots.len(),
                self@.slots.len() == count,
                self@.channel == old(self)@.channel,
                self@.pending == old(self)@.pending,
                self@.capacity == old(self)@.capacity,
                forall|i: int| 0 <= i < index ==> self@.slots[i] == old(self)@.slots[i].folded(fds@),
                forall|i: int| index <= i < count ==> self@.slots[i] == old(self)@.slots[i],
                self@.woken == old(self)@.woken + Table::woken_by(old(self)@.slots.take(index as int), fds@),
            decreases count - index,
        {
            let ghost before = self@;
            self.fire_at(index, Event::Read, fds);
            self.fire_at(index, Event::Write, fds);
            proof {
                let slot = old(self)@.slots[index as int];
                let shorter = old(self)@.slots.take(index as int);
                let longer = old(self)@.slots.take(index + 1);
                assert(longer.drop_last() =~= shorter);
                assert(longer.last() == slot);
                assert(before.slots[index as int] == slot);
                assert(self@.woken =~= before.woken + slot.woken_by(fds@));
                assert(self@.woken =~= old(self)@.woken + Table::woken_by(longer, fds@));
            }
            index += 1;
        }
        proof {
            assert(old(self)@.slots.take(count as int) =~= old(self)@.slots);
            assert(self@.slots =~= old(self)@.folded(fds@).slots);
        }
    }

    /// Rebuilds the readiness bitsets for the next poll: `fds` is cleared,
    /// then the notification channel is marked for reading, and so is every
    /// registered descriptor for each event that a waker waits for. Returns
    /// the largest descriptor among the notification channel's and the
    /// registered ones, which bounds the poll, or `None` if there is none.
    pub fn set_fds(&self, fds: &mut Fds) -> (outcome: Result<Option<i32>, Error>)
        requires
            self.wf(),
        ensures
            final(fds)@ == self@.interest(),
            match outcome {
                Ok(Some(top)) => self@.is_top(top as int),
                Ok(None) => forall|fd: int| !self@.watches(fd),
                Err(_) => false,
            },
    {
        fds.zero();
        let mut max: Option<i32> = None;
        match self.event_fd {
            Some(channel) => {
                fds.set(channel, Event::Read);
                max = Some(channel);
            },
            None => {},
        }
        let slice = slots::as_slice(&self.vec);
        proof {
            let first = self@.prefix(0);
            assert(forall|fd: int, event: Event| !first.awaits(fd, event));
            assert(fds@.read =~= first.interest().read);
            assert(fds@.write =~= first.interest().write);
        }
        let mut index: usize = 0;
        while index < slice.len()
            invariant
                self.wf(),
                slice@ == self@.slots,
                index <= slice.len(),
                fds@ == self@.prefix(index as int).interest(),
                match max {
                    Some(top) => self@.prefix(index as int).is_top(top as int),
                    None => forall|fd: int| !self@.prefix(index as int).watches(fd),
                },
            decreases slice.len() - index,
        {
            let registration = &slice[index];
            proof {
                self@.lemma_prefix_step(index as int);
            }
            if registration.has_waker(Event::Read) {
                fds.set(registration.fd, Event::Read);
            }
            if registration.has_waker(Event::Write) {
                fds.set(registration.fd, Event::Write);
            }
            max = Some(
                match max {
                    Some(top) => if top > registration.fd {
                        top
                    } else {
                        registration.fd
                    },
                    None => registration.fd,
                },
            );
            proof {
                let longer = self@.prefix(index + 1);
                assert(fds@.read =~= longer.interest().read);
                assert(fds@.write =~= longer.interest().write);
                assert(longer.watches(registration.fd as int));
            }
            index += 1;
        }
        proof {
            assert(self@.slots.take(slice.len() as int) =~= self@.slots);
            assert(self@.prefix(slice.len() as int) == self@);
        }
        Ok(max)
    }

    /// The descriptor of the notification channel, if there is one: the
    /// one to signal after a request, and to drain after a poll.
    pub fn notification(&self) -> (channel: Option<i32>)
        ensures
            channel == self@.channel,
    {
        self.event_fd
    }

    /// Takes `fd`, a channel that was just opened, as the notification
    /// channel, unless there is one already, and says whether it did. A
    /// descriptor that the readiness bitsets cannot hold, or that is
    /// registered, is refused.
    pub fn create_notification(&mut self, fd: i32) -> (outcome: Result<bool, Error>)
        requires
            old(self).wf(),
        ensures
            final(self).wf(),
            outcome == old(self)@.create_outcome(fd),
            final(self)@ == old(self)@.after_create(fd),
    {
        if self.event_fd.is_some() {
            return Ok(false);
        }
        if fd < 0 || fd >= FD_SETSIZE as i32 {
            return Err(Error::InvalidArgument);
        }
        if self.position(fd).is_some() {
            return Err(Error::InvalidArgument);
        }
        self.event_fd = Some(fd);
        Ok(true)
    }

    /// Gives the notification channel up, and returns its descriptor, to
    /// be closed; `None` if there was no channel.
    pub fn destroy_notification(&mut self) -> (channel: Option<i32>)
        requires
            old(self).wf(),
        ensures
            final(self).wf(),
            channel == old(self)@.channel,
            final(self)@ == (Table { channel: None, ..old(self)@ }),
    {
        self.event_fd.take()
    }

    /// How many requests were made since the poll thread last took note.
    pub fn pending(&self) -> (pending: usize)
        ensures
            pending == self@.pending,
    {
        self.waiting
    }

    /// Counts one more request.
    pub fn enter(&mut self)
        requires
            old(self).wf(),
            old(self)@.pending < usize::MAX,
        ensures
            final(self).wf(),
            final(self)@ == old(self)@.entered(),
    {
        self.waiting += 1;
    }

    /// Takes note of all requests made so far.
    pub fn release(&mut self)
        requires
            old(self).wf(),
        ensures
            final(self).wf(),
            final(self)@ == old(self)@.released(),
    {
        self.waiting = 0;
    }
}

} // verus!
