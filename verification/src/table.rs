//! What a registration table holds, and what each operation makes of it.

use vstd::prelude::*;
use core::task::Waker;
use crate::error::Error;
use crate::event::Event;
use crate::fds::{Marks, FD_SETSIZE};
use crate::registration::Registration;
use crate::waker::same_task;

verus! {

/// What a registration table holds.
pub struct Table {
    /// The registrations, in the order in which the table keeps them.
    pub slots: Seq<Registration>,
    /// The descriptor of the notification channel, while there is one.
    pub channel: Option<i32>,
    /// How many requests were made since the poll thread last took note.
    pub pending: nat,
    /// Every waker that the table has woken, first to last.
    pub woken: Seq<Waker>,
    /// How many registrations the table takes.
    pub capacity: nat,
}

/// How many registrations a table made for `limit` of them takes.
pub open spec fn capacity_for(limit: usize) -> nat {
    if limit < FD_SETSIZE {
        limit as nat
    } else {
        FD_SETSIZE as nat
    }
}

impl Table {
    /// Whether `fd` is registered.
    pub open spec fn has(self, fd: i32) -> bool {
        exists|i: int| 0 <= i < self.slots.len() && (#[trigger] self.slots[i]).fd == fd
    }

    /// Where the registration of `fd` stands, if `fd` is registered.
    pub open spec fn index_of(self, fd: i32) -> int {
        choose|i: int| 0 <= i < self.slots.len() && (#[trigger] self.slots[i]).fd == fd
    }

    /// The registration of `fd`, if `fd` is registered.
    pub open spec fn slot(self, fd: i32) -> Registration {
        self.slots[self.index_of(fd)]
    }

    /// The table with `slot` in the place of the registration of `fd`.
    pub open spec fn with_slot(self, fd: i32, slot: Registration) -> Table {
        Table { slots: self.slots.update(self.index_of(fd), slot), ..self }
    }

    /// What holds of every table: it keeps within its capacity, every
    /// registration is as it should be, no descriptor is registered twice,
    /// and the notification channel's descriptor fits the readiness bitsets
    /// and is never a registered one.
    pub open spec fn wf(self) -> bool {
        &&& self.slots.len() <= self.capacity <= FD_SETSIZE
        &&& forall|i: int| 0 <= i < self.slots.len() ==> (#[trigger] self.slots[i]).wf()
        &&& forall|i: int, j: int|
            0 <= i < j < self.slots.len() ==> (#[trigger] self.slots[i]).fd != (#[trigger] self.slots[j]).fd
        &&& self.channel matches Some(channel) ==> 0 <= channel < FD_SETSIZE && !self.has(channel)
        &&& self.pending <= usize::MAX
    }

    /// A table of the given capacity that holds nothing.
    pub open spec fn empty(capacity: nat) -> Table {
        Table { slots: Seq::empty(), channel: None, pending: 0, woken: Seq::empty(), capacity }
    }

    /// Whether `fd` may be registered: it fits the readiness bitsets, is
    /// not the notification channel's, and is not registered yet.
    pub open spec fn admits(self, fd: i32) -> bool {
        0 <= fd < FD_SETSIZE && self.channel != Some(fd) && !self.has(fd)
    }

    /// What `register` answers.
    pub open spec fn register_outcome(self, fd: i32) -> Result<(), Error> {
        if !self.admits(fd) {
            Err(Error::InvalidArgument)
        } else if self.slots.len() >= self.capacity {
            Err(Error::ResourceExhausted)
        } else {
            Ok(())
        }
    }

    /// The table after `register`.
    pub open spec fn after_register(self, fd: i32) -> Table {
        if self.register_outcome(fd).is_ok() {
            Table { slots: self.slots.push(Registration::fresh(fd)), ..self }
        } else {
            self
        }
    }

    /// What `deregister` answers.
    pub open spec fn deregister_outcome(self, fd: i32) -> Result<(), Error> {
        if self.has(fd) {
            Ok(())
        } else {
            Err(Error::NotFound)
        }
    }

    /// The table after `deregister`: the last registration stands where the
    /// one of `fd` stood.
    pub open spec fn after_deregister(self, fd: i32) -> Table {
        if self.has(fd) {
            Table { slots: self.slots.update(self.index_of(fd), self.slots.last()).drop_last(), ..self }
        } else {
            self
        }
    }

    /// What `fetch` answers.
    pub open spec fn fetch_outcome(self, fd: i32, event: Event) -> Result<bool, Error> {
        if self.has(fd) {
            Ok(self.slot(fd).events.has(event))
        } else {
            Err(Error::NotFound)
        }
    }

    /// The table after `fetch`.
    pub open spec fn after_fetch(self, fd: i32, event: Event) -> Table {
        if self.has(fd) {
            self.with_slot(fd, self.slot(fd).fetched(event))
        } else {
            self
        }
    }

    /// The table after `stored` was set to wait for `event` on `fd` on
    /// behalf of `given`: the event is no longer seen, `stored` waits, and
    /// the waker that waited before was woken if it wakes another task.
    pub open spec fn armed(self, fd: i32, event: Event, given: Waker, stored: Waker) -> Table {
        Table {
            woken: match self.slot(fd).displaced(event, given) {
                Some(previous) => self.woken.push(previous),
                None => self.woken,
            },
            ..self.with_slot(fd, self.slot(fd).armed(event, stored))
        }
    }

    /// What `arm` and `set` answer.
    pub open spec fn arm_outcome(self, fd: i32) -> Result<(), Error> {
        if self.has(fd) {
            Ok(())
        } else {
            Err(Error::NotFound)
        }
    }

    /// The table after `arm`.
    pub open spec fn after_arm(self, fd: i32, event: Event, given: Waker, stored: Waker) -> Table {
        if self.has(fd) {
            self.armed(fd, event, given, stored)
        } else {
            self
        }
    }

    /// The table after `fetch_or_set`: after `fetch`, and, if the event had
    /// not been seen, with `stored` set to wait for it.
    pub open spec fn after_fetch_or_arm(self, fd: i32, event: Event, given: Waker, stored: Waker) -> Table {
        if self.fetch_outcome(fd, event) == Ok::<bool, Error>(false) {
            self.after_fetch(fd, event).after_arm(fd, event, given, stored)
        } else {
            self.after_fetch(fd, event)
        }
    }

    /// The table after the poll primitive's report for `event` reached the
    /// registration at `index`.
    pub open spec fn fired_at(self, index: int, event: Event, marks: Marks) -> Table {
        Table {
            slots: self.slots.update(index, self.slots[index].fired(event, marks)),
            woken: match self.slots[index].due(event, marks) {
                Some(waker) => self.woken.push(waker),
                None => self.woken,
            },
            ..self
        }
    }

    /// The wakers that a poll with the outcome `marks` wakes among `slots`,
    /// in the order of the slots, and for each the one for reading first.
    pub open spec fn woken_by(slots: Seq<Registration>, marks: Marks) -> Seq<Waker>
        decreases slots.len(),
    {
        if slots.len() == 0 {
            Seq::empty()
        } else {
            Table::woken_by(slots.drop_last(), marks) + slots.last().woken_by(marks)
        }
    }

    /// The table after a poll with the outcome `marks`: every reported
    /// event is seen, and whoever waited for one was woken and waits no
    /// more.
    pub open spec fn folded(self, marks: Marks) -> Table {
        Table {
            slots: Seq::new(self.slots.len(), |i: int| self.slots[i].folded(marks)),
            woken: self.woken + Table::woken_by(self.slots, marks),
            ..self
        }
    }

    /// Whether a waker waits for `event` on the descriptor `fd`.
    pub open spec fn awaits(self, fd: int, event: Event) -> bool {
        exists|i: int|
            0 <= i < self.slots.len() && (#[trigger] self.slots[i]).fd == fd && self.slots[i].waker(
                event,
            ).is_some()
    }

    /// What the next poll has to look out for: reading on the notification
    /// channel, and every event that a waker waits for.
    pub open spec fn interest(self) -> Marks {
        Marks {
            read: Set::new(
                |fd: int|
                    (self.channel matches Some(channel) && channel == fd) || self.awaits(fd, Event::Read),
            ),
            write: Set::new(|fd: int| self.awaits(fd, Event::Write)),
            except: Set::empty(),
        }
    }

    /// Whether `fd` is the notification channel's descriptor or a
    /// registered one.
    pub open spec fn watches(self, fd: int) -> bool {
        (self.channel matches Some(channel) && channel == fd) || exists|i: int|
            0 <= i < self.slots.len() && (#[trigger] self.slots[i]).fd == fd
    }

    /// Whether `fd` is the largest descriptor that the table watches.
    pub open spec fn is_top(self, fd: int) -> bool {
        self.watches(fd) && forall|other: int| self.watches(other) ==> other <= fd
    }

    /// The largest descriptor that the table watches, if it watches any.
    pub open spec fn top(self) -> int {
        choose|fd: int| self.is_top(fd)
    }

    /// The table with only its first `count` registrations.
    pub open spec fn prefix(self, count: int) -> Table {
        Table { slots: self.slots.take(count), ..self }
    }

    /// What `create_notification` answers.
    pub open spec fn create_outcome(self, fd: i32) -> Result<bool, Error> {
        if self.channel.is_some() {
            Ok(false)
        } else if 0 <= fd < FD_SETSIZE && !self.has(fd) {
            Ok(true)
        } else {
            Err(Error::InvalidArgument)
        }
    }

    /// The table after `create_notification`.
    pub open spec fn after_create(self, fd: i32) -> Table {
        if self.create_outcome(fd) == Ok::<bool, Error>(true) {
            Table { channel: Some(fd), ..self }
        } else {
            self
        }
    }

    /// The table with one more request counted.
    pub open spec fn entered(self) -> Table {
        Table { pending: self.pending + 1, ..self }
    }

    /// The table with no request left to take note of.
    pub open spec fn released(self) -> Table {
        Table { pending: 0, ..self }
    }
}

// What every operation keeps, and what the proofs about tables rest on.
impl Table {
    /// The registration that stands at `index` is the one that `index_of`
    /// finds for its descriptor.
    pub proof fn lemma_index_of(self, index: int)
        requires
            self.wf(),
            0 <= index < self.slots.len(),
        ensures
            self.has(self.slots[index].fd),
            self.index_of(self.slots[index].fd) == index,
    {
        let fd = self.slots[index].fd;
        let found = self.index_of(fd);
        assert(0 <= found < self.slots.len() && self.slots[found].fd == fd);
        if found < index {
            assert(self.slots[found].fd != self.slots[index].fd);
        } else if index < found {
            assert(self.slots[index].fd != self.slots[found].fd);
        }
    }

    /// A table stays as every table is when one registration changes
    /// anything but its descriptor, and is still as it should be.
    pub proof fn lemma_same_descriptors(self, after: Table, index: int)
        requires
            self.wf(),
            0 <= index < self.slots.len(),
            after.slots.len() == self.slots.len(),
            forall|i: int| 0 <= i < self.slots.len() && i != index ==> after.slots[i] == self.slots[i],
            after.slots[index].fd == self.slots[index].fd,
            after.slots[index].wf(),
            after.channel == self.channel,
            after.capacity == self.capacity,
            after.pending == self.pending,
        ensures
            after.wf(),
            forall|fd: i32| self.has(fd) == after.has(fd),
    {
        assert forall|i: int| 0 <= i < after.slots.len() implies (#[trigger] after.slots[i]).fd
            == self.slots[i].fd by {}
        assert forall|fd: i32| self.has(fd) == after.has(fd) by {
            if self.has(fd) {
                let i = self.index_of(fd);
                assert(after.slots[i].fd == fd);
            }
            if after.has(fd) {
                let i = after.index_of(fd);
                assert(self.slots[i].fd == fd);
            }
        }
        assert forall|i: int, j: int| 0 <= i < j < after.slots.len() implies (#[trigger] after.slots[i]).fd != (
        #[trigger] after.slots[j]).fd by {
            assert(self.slots[i].fd != self.slots[j].fd);
        }
    }

    /// `register` leaves a table as every table is.
    pub proof fn lemma_register_keeps(self, fd: i32)
        requires
            self.wf(),
        ensures
            self.after_register(fd).wf(),
    {
        let after = self.after_register(fd);
        if self.register_outcome(fd).is_ok() {
            let last = self.slots.len() as int;
            assert forall|i: int, j: int| 0 <= i < j < after.slots.len() implies (#[trigger] after.slots[i]).fd
                != (#[trigger] after.slots[j]).fd by {
                if j == last {
                    assert(self.slots[i].fd != fd);
                }
            }
            if after.channel is Some && after.has(after.channel.unwrap()) {
                let channel = after.channel.unwrap();
                let i = after.index_of(channel);
                if i < last {
                    assert(self.slots[i].fd == channel);
                }
            }
        }
    }

    /// `fetch` leaves a table as every table is, and the same descriptors
    /// registered.
    pub proof fn lemma_fetch_keeps(self, fd: i32, event: Event)
        requires
            self.wf(),
        ensures
            self.after_fetch(fd, event).wf(),
            forall|other: i32| self.has(other) == self.after_fetch(fd, event).has(other),
            self.has(fd) ==> self.after_fetch(fd, event).index_of(fd) == self.index_of(fd),
    {
        if self.has(fd) {
            let index = self.index_of(fd);
            let after = self.after_fetch(fd, event);
            self.lemma_same_descriptors(after, index);
            after.lemma_index_of(index);
        }
    }

    /// `arm` leaves a table as every table is, and the same descriptors
    /// registered.
    pub proof fn lemma_arm_keeps(self, fd: i32, event: Event, given: Waker, stored: Waker)
        requires
            self.wf(),
        ensures
            self.after_arm(fd, event, given, stored).wf(),
            forall|other: i32| self.has(other) == self.after_arm(fd, event, given, stored).has(other),
    {
        if self.has(fd) {
            let index = self.index_of(fd);
            assert(self.slots[index].wf());
            self.lemma_same_descriptors(self.after_arm(fd, event, given, stored), index);
        }
    }

    /// Folding a poll's outcome leaves a table as every table is, with the
    /// same descriptors registered in the same places.
    pub proof fn lemma_folded_keeps(self, marks: Marks)
        requires
            self.wf(),
        ensures
            self.folded(marks).wf(),
            forall|fd: i32| self.has(fd) == self.folded(marks).has(fd),
    {
        let after = self.folded(marks);
        assert forall|i: int| 0 <= i < after.slots.len() implies (#[trigger] after.slots[i]).fd
            == self.slots[i].fd && after.slots[i].wf() by {
            assert(self.slots[i].wf());
        }
        assert forall|fd: i32| self.has(fd) == after.has(fd) by {
            if self.has(fd) {
                let i = self.index_of(fd);
                assert(after.slots[i].fd == fd);
            }
            if after.has(fd) {
                let i = after.index_of(fd);
                assert(self.slots[i].fd == fd);
            }
        }
        assert forall|i: int, j: int| 0 <= i < j < after.slots.len() implies (#[trigger] after.slots[i]).fd != (
        #[trigger] after.slots[j]).fd by {
            assert(self.slots[i].fd != self.slots[j].fd);
        }
    }

    /// What one more registration adds to what a table watches and waits
    /// for.
    pub proof fn lemma_prefix_step(self, count: int)
        requires
            0 <= count < self.slots.len(),
        ensures
            forall|fd: int, event: Event| #[trigger]
                self.prefix(count + 1).awaits(fd, event) == (self.prefix(count).awaits(fd, event) || (
                self.slots[count].fd == fd && self.slots[count].waker(event).is_some())),
            forall|fd: int| #[trigger]
                self.prefix(count + 1).watches(fd) == (self.prefix(count).watches(fd) || self.slots[count].fd
                    == fd),
    {
        let shorter = self.prefix(count);
        let longer = self.prefix(count + 1);
        assert(longer.slots[count] == self.slots[count]);
        assert forall|fd: int, event: Event| #[trigger]
            longer.awaits(fd, event) == (shorter.awaits(fd, event) || (self.slots[count].fd == fd
                && self.slots[count].waker(event).is_some())) by {
            if shorter.awaits(fd, event) {
                let i = choose|i: int|
                    0 <= i < shorter.slots.len() && (#[trigger] shorter.slots[i]).fd == fd
                        && shorter.slots[i].waker(event).is_some();
                assert(longer.slots[i] == shorter.slots[i]);
            }
            if longer.awaits(fd, event) {
                let i = choose|i: int|
                    0 <= i < longer.slots.len() && (#[trigger] longer.slots[i]).fd == fd
                        && longer.slots[i].waker(event).is_some();
                if i < count {
                    assert(shorter.slots[i] == longer.slots[i]);
                }
            }
        }
        assert forall|fd: int| #[trigger]
            longer.watches(fd) == (shorter.watches(fd) || self.slots[count].fd == fd) by {
            if shorter.watches(fd) && !(shorter.channel matches Some(channel) && channel == fd) {
                let i = choose|i: int| 0 <= i < shorter.slots.len() && (#[trigger] shorter.slots[i]).fd == fd;
                assert(longer.slots[i] == shorter.slots[i]);
            }
            if longer.watches(fd) && !(longer.channel matches Some(channel) && channel == fd) {
                let i = choose|i: int| 0 <= i < longer.slots.len() && (#[trigger] longer.slots[i]).fd == fd;
                if i < count {
                    assert(shorter.slots[i] == longer.slots[i]);
                }
            }
        }
    }

    /// A table that watches anything has exactly one largest descriptor,
    /// and it fits the readiness bitsets.
    pub proof fn lemma_top(self, fd: int)
        requires
            self.wf(),
            self.is_top(fd),
        ensures
            self.top() == fd,
            0 <= fd < FD_SETSIZE,
    {
        let top = self.top();
        assert(self.is_top(top));
        assert(self.watches(top) && self.watches(fd));
        if !(self.channel matches Some(channel) && channel == fd) {
            let i = choose|i: int| 0 <= i < self.slots.len() && (#[trigger] self.slots[i]).fd == fd;
            assert(self.slots[i].wf());
        }
    }

    /// A table that watches anything has a largest descriptor.
    pub proof fn lemma_watched_has_top(self)
        requires
            self.wf(),
            exists|fd: int| self.watches(fd),
        ensures
            self.is_top(self.top()),
    {
        let any = choose|fd: int| self.watches(fd);
        self.lemma_top_from(any, FD_SETSIZE as int);
    }

    /// A table that watches `fd` watches a largest descriptor; the search
    /// for it starts from the upper end `bound`.
    proof fn lemma_top_from(self, fd: int, bound: int)
        requires
            self.wf(),
            self.watches(fd),
            forall|other: int| self.watches(other) ==> other < bound,
        ensures
            exists|top: int| self.is_top(top),
            self.is_top(self.top()),
        decreases bound - fd,
    {
        if self.watches(bound - 1) {
            assert(self.is_top(bound - 1));
        } else {
            self.lemma_top_from(fd, bound - 1);
        }
    }

    /// A poll wakes nobody when no registration has a waker to be woken.
    pub proof fn lemma_woken_by_none(slots: Seq<Registration>, marks: Marks)
        requires
            forall|i: int| 0 <= i < slots.len() ==> (#[trigger] slots[i]).woken_by(marks) == Seq::<Waker>::empty(),
        ensures
            Table::woken_by(slots, marks) == Seq::<Waker>::empty(),
        decreases slots.len(),
    {
        if slots.len() > 0 {
            let shorter = slots.drop_last();
            assert forall|i: int| 0 <= i < shorter.len() implies (#[trigger] shorter[i]).woken_by(marks)
                == Seq::<Waker>::empty() by {
                assert(shorter[i] == slots[i]);
            }
            Table::lemma_woken_by_none(shorter, marks);
            assert(Table::woken_by(slots, marks) =~= Seq::<Waker>::empty());
        }
    }

    /// The wakers that a poll wakes when at most the registration at
    /// `index` has any to be woken are those of that registration.
    pub proof fn lemma_woken_by_one(slots: Seq<Registration>, marks: Marks, index: int)
        requires
            0 <= index < slots.len(),
            forall|i: int|
                0 <= i < slots.len() && i != index ==> (#[trigger] slots[i]).woken_by(marks) == Seq::<
                    Waker,
                >::empty(),
        ensures
            Table::woken_by(slots, marks) == slots[index].woken_by(marks),
        decreases slots.len(),
    {
        let shorter = slots.drop_last();
        if index == slots.len() - 1 {
            Table::lemma_woken_by_none(shorter, marks);
            assert(Table::woken_by(slots, marks) =~= slots[index].woken_by(marks));
        } else {
            assert(slots.last().woken_by(marks) == Seq::<Waker>::empty());
            assert(shorter[index] == slots[index]);
            Table::lemma_woken_by_one(shorter, marks, index);
            assert(Table::woken_by(slots, marks) =~= slots[index].woken_by(marks));
        }
    }
}

// What holds of the operations, one after another.
impl Table {
    /// `deregister` takes the registration of `fd` out and no other: every
    /// other descriptor stays registered, with what was seen of it and who
    /// waits for it.
    pub proof fn lemma_deregister_removes(self, fd: i32)
        requires
            self.wf(),
            self.has(fd),
        ensures
            self.after_deregister(fd).wf(),
            !self.after_deregister(fd).has(fd),
            self.after_deregister(fd).slots.len() == self.slots.len() - 1,
            forall|other: i32|
                other != fd ==> self.after_deregister(fd).has(other) == #[trigger] self.has(other),
            forall|other: i32|
                other != fd && #[trigger] self.has(other) ==> self.after_deregister(fd).slot(other)
                    == self.slot(other),
    {
        let after = self.after_deregister(fd);
        let index = self.index_of(fd);
        let last = self.slots.len() - 1;
        assert forall|i: int| 0 <= i < after.slots.len() implies #[trigger] after.slots[i] == self.slots[if i
            == index {
            last
        } else {
            i
        }] by {}
        assert forall|i: int, j: int| 0 <= i < j < after.slots.len() implies (#[trigger] after.slots[i]).fd != (
        #[trigger] after.slots[j]).fd by {
            let from_i = if i == index { last } else { i };
            let from_j = if j == index { last } else { j };
            if from_i < from_j {
                assert(self.slots[from_i].fd != self.slots[from_j].fd);
            } else {
                assert(self.slots[from_j].fd != self.slots[from_i].fd);
            }
        }
        assert forall|other: i32| after.has(other) implies self.has(other) && other != fd by {
            let i = after.index_of(other);
            let from = if i == index { last } else { i };
            assert(self.slots[from].fd == other);
            if other == fd {
                self.lemma_index_of(from);
            }
        }
        assert forall|other: i32| other != fd && #[trigger] self.has(other) implies after.has(other)
            && after.slot(other) == self.slot(other) by {
            let i = self.index_of(other);
            let to = if i == last { index } else { i };
            assert(after.slots[to] == self.slots[i]);
            after.lemma_index_of(to);
        }
        if after.channel is Some && after.has(after.channel.unwrap()) {
            assert(self.has(after.channel.unwrap()));
        }
    }

    /// A descriptor that was registered and then deregistered is gone: the
    /// table is as it was before, and a `fetch` on the descriptor finds
    /// nothing.
    pub proof fn lemma_register_then_deregister(self, fd: i32, event: Event)
        requires
            self.wf(),
            self.register_outcome(fd).is_ok(),
        ensures
            self.after_register(fd).has(fd),
            self.after_register(fd).deregister_outcome(fd).is_ok(),
            self.after_register(fd).after_deregister(fd) == self,
            !self.after_register(fd).after_deregister(fd).has(fd),
            self.after_register(fd).after_deregister(fd).fetch_outcome(fd, event) == Err::<bool, Error>(
                Error::NotFound,
            ),
    {
        let registered = self.after_register(fd);
        let last = self.slots.len() as int;
        assert(registered.slots[last].fd == fd);
        let index = registered.index_of(fd);
        if index < last {
            assert(self.slots[index].fd == fd);
        }
        assert(registered.after_deregister(fd).slots =~= self.slots);
    }

    /// A descriptor cannot be registered twice: the second `register` is
    /// refused, and the table, with what the first registration holds, stays
    /// as it is.
    pub proof fn lemma_register_duplicate(self, fd: i32)
        requires
            self.wf(),
            self.has(fd),
        ensures
            self.register_outcome(fd) == Err::<(), Error>(Error::InvalidArgument),
            self.after_register(fd) == self,
    {
    }

    /// A full table takes no further descriptor: `register` of one that
    /// could be registered otherwise is refused for want of room, and the
    /// table holds as many registrations as before, as many as it takes.
    pub proof fn lemma_register_full(self, fd: i32)
        requires
            self.wf(),
            self.slots.len() == self.capacity,
            self.admits(fd),
        ensures
            self.register_outcome(fd) == Err::<(), Error>(Error::ResourceExhausted),
            self.after_register(fd) == self,
            self.after_register(fd).slots.len() == self.capacity,
    {
    }

    /// `fetch_or_set` on an event that was seen says so and sets no waker:
    /// afterwards the event is no longer seen, and nobody waits for it.
    pub proof fn lemma_fetch_or_set_seen(self, fd: i32, event: Event, given: Waker, stored: Waker)
        requires
            self.wf(),
            self.has(fd),
            self.slot(fd).events.has(event),
        ensures
            self.fetch_outcome(fd, event) == Ok::<bool, Error>(true),
            self.after_fetch_or_arm(fd, event, given, stored) == self.after_fetch(fd, event),
            self.after_fetch_or_arm(fd, event, given, stored).has(fd),
            self.after_fetch_or_arm(fd, event, given, stored).slot(fd).waker(event).is_none(),
            !self.after_fetch_or_arm(fd, event, given, stored).slot(fd).events.has(event),
            self.after_fetch_or_arm(fd, event, given, stored).woken == self.woken,
    {
        let index = self.index_of(fd);
        assert(self.slots[index].wf());
        self.lemma_fetch_keeps(fd, event);
    }

    /// `fetch_or_set` on an event that was not seen says so and sets the
    /// waker to wait. The poll that then reports the event sees it, takes
    /// that very waker out to wake it, and leaves nobody waiting, so that
    /// reporting the event again wakes nobody. If the poll reports nothing
    /// else that anyone waits for, the waker is the one that it wakes.
    pub proof fn lemma_fetch_or_set_then_poll(
        self,
        fd: i32,
        event: Event,
        given: Waker,
        stored: Waker,
        marks: Marks,
    )
        requires
            self.wf(),
            self.has(fd),
            !self.slot(fd).events.has(event),
            marks.marked(fd as int, event),
        ensures
            self.fetch_outcome(fd, event) == Ok::<bool, Error>(false),
            ({
                let armed = self.after_fetch_or_arm(fd, event, given, stored);
                let polled = armed.folded(marks);
                &&& armed.wf()
                &&& armed.has(fd)
                &&& armed.slot(fd).waker(event) == Some(stored)
                &&& armed.slot(fd).due(event, marks) == Some(stored)
                &&& polled.wf()
                &&& polled.has(fd)
                &&& polled.slot(fd).events.has(event)
                &&& polled.slot(fd).waker(event).is_none()
                &&& polled.slot(fd).due(event, marks).is_none()
                &&& (forall|i: int, other: Event|
                    0 <= i < armed.slots.len() && !(i == armed.index_of(fd) && other == event)
                        ==> #[trigger] armed.slots[i].due(other, marks).is_none()) ==> polled.woken
                    == armed.woken.push(stored)
            }),
    {
        let index = self.index_of(fd);
        assert(self.slots[index].wf());
        self.lemma_fetch_keeps(fd, event);
        let fetched = self.after_fetch(fd, event);
        assert(fetched.slots[index].wf());
        let armed = fetched.after_arm(fd, event, given, stored);
        assert(armed == self.after_fetch_or_arm(fd, event, given, stored));
        fetched.lemma_same_descriptors(armed, index);
        armed.lemma_index_of(index);
        let polled = armed.folded(marks);
        armed.lemma_folded_keeps(marks);
        polled.lemma_index_of(index);
        if forall|i: int, other: Event|
            0 <= i < armed.slots.len() && !(i == armed.index_of(fd) && other == event)
                ==> #[trigger] armed.slots[i].due(other, marks).is_none() {
            assert forall|i: int| 0 <= i < armed.slots.len() && i != index implies (
            #[trigger] armed.slots[i]).woken_by(marks) == Seq::<Waker>::empty() by {
                assert(armed.slots[i].due(Event::Read, marks).is_none());
                assert(armed.slots[i].due(Event::Write, marks).is_none());
            }
            Table::lemma_woken_by_one(armed.slots, marks, index);
            match event {
                Event::Read => {
                    assert(armed.slots[index].due(Event::Write, marks).is_none());
                },
                Event::Write => {
                    assert(armed.slots[index].due(Event::Read, marks).is_none());
                },
            }
            assert(armed.slots[index].woken_by(marks) =~= seq![stored]);
            assert(polled.woken =~= armed.woken.push(stored));
        }
    }

    /// A waker that takes the place of another task's waker wakes that
    /// task, and waits in its stead. One that takes the place of a waker of
    /// its own task wakes nobody.
    pub proof fn lemma_arm_displaces(self, fd: i32, event: Event, given: Waker, stored: Waker, previous: Waker)
        requires
            self.wf(),
            self.has(fd),
            self.slot(fd).waker(event) == Some(previous),
        ensures
            self.arm_outcome(fd).is_ok(),
            self.after_arm(fd, event, given, stored).has(fd),
            self.after_arm(fd, event, given, stored).slot(fd).waker(event) == Some(stored),
            !same_task(previous, given) ==> self.after_arm(fd, event, given, stored).woken
                == self.woken.push(previous),
            same_task(previous, given) ==> self.after_arm(fd, event, given, stored).woken
                == self.woken,
    {
        let index = self.index_of(fd);
        let after = self.after_arm(fd, event, given, stored);
        assert(self.slots[index].wf());
        self.lemma_same_descriptors(after, index);
        after.lemma_index_of(index);
    }
}

} // verus!
