//! The reactor: one registration table, shared by the threads that make
//! requests and the one thread that polls.
//!
//! Nothing here blocks or calls the operating system. The reactor says what
//! is to be done next; its driver does it, under the lock that guards the
//! reactor, and reports how it went.
//!
//! A request (`register`, `deregister`, `fetch`, `fetch_or_set`) counts
//! itself as pending and changes the table. Its caller then signals the
//! notification channel, if `notification` names one, and waits until
//! `pending` is back at zero: by then the poll thread has taken the change
//! into its next poll.
//!
//! The poll thread starts with `PollAction::Open` once `start` has returned
//! `true`, and goes on as each answer tells it.

use vstd::prelude::*;
use vstd::pervasive::unreached;
use core::task::Waker;
use crate::error::Error;
use crate::event::Event;
use crate::fds::{Fds, Marks};
use crate::registrations::Registrations;
use crate::state::{settled, Phase, PollAction, State};
use crate::table::capacity_for;

verus! {

/// Says how signalling or draining the notification channel went, given
/// how the system call went.
pub fn unless_would_block(outcome: Result<(), Error>) -> (result: Result<(), Error>)
    ensures
        result == settled(outcome),
{
    match outcome {
        Err(Error::WouldBlock) => Ok(()),
        _ => outcome,
    }
}

/// What a poll found, given the bitsets as it left them.
pub open spec fn found(outcome: Result<Fds, Error>) -> Result<Marks, Error> {
    match outcome {
        Ok(ready) => Ok(ready@),
        Err(error) => Err(error),
    }
}

/// A reactor that takes up to `N` registrations.
pub struct Reactor<const N: usize> {
    registrations: Registrations<N>,
    fds: Fds,
    nfds: i32,
    phase: Phase,
}

impl<const N: usize> View for Reactor<N> {
    type V = State;

    closed spec fn view(&self) -> State {
        State { table: self.registrations@, marks: self.fds@, nfds: self.nfds, phase: self.phase }
    }
}

impl<const N: usize> Reactor<N> {
    /// Whether the reactor is as every reactor is.
    pub open spec fn wf(&self) -> bool {
        self@.wf()
    }

    /// A reactor that watches nothing and has no poll thread.
    pub fn new() -> (reactor: Self)
        ensures
            reactor.wf(),
            reactor@ == State::initial(capacity_for(N)),
    {
        Reactor { registrations: Registrations::new(), fds: Fds::new(), nfds: 0, phase: Phase::NotStarted }
    }

    /// Starts the reactor, once: returns `true` if a poll thread has to be
    /// started now, and `false`, changing nothing, if the reactor had been
    /// started before.
    pub fn start(&mut self) -> (started: bool)
        requires
            old(self).wf(),
        ensures
            final(self).wf(),
            started == (old(self)@.phase == Phase::NotStarted),
            final(self)@ == old(self)@.after_start(),
    {
        match self.phase {
            Phase::NotStarted => {
                self.phase = Phase::Opening;
                true
            },
            _ => false,
        }
    }

    /// Where the reactor stands.
    pub fn phase(&self) -> (phase: Phase)
        ensures
            phase == self@.phase,
    {
        self.phase
    }

    /// The readiness bitsets: while a poll is due, what it has to look out
    /// for.
    pub fn fds(&self) -> (fds: &Fds)
        ensures
            fds@ == self@.marks,
    {
        &self.fds
    }

    /// The descriptor of the notification channel, if there is one. After
    /// a request its caller signals this channel, to interrupt the poll.
    pub fn notification(&self) -> (channel: Option<i32>)
        ensures
            channel == self@.table.channel,
    {
        self.registrations.notification()
    }

    /// How many requests the poll thread has not taken note of yet. The
    /// caller of a request waits until there is none.
    pub fn pending(&self) -> (pending: usize)
        ensures
            pending == self@.table.pending,
    {
        self.registrations.pending()
    }

    /// Requests that `fd` be watched.
    pub fn register(&mut self, fd: i32) -> (outcome: Result<(), Error>)
        requires
            old(self).wf(),
            old(self)@.table.pending < usize::MAX,
        ensures
            final(self).wf(),
            outcome == old(self)@.table.register_outcome(fd),
            final(self)@ == old(self)@.after_request(old(self)@.table.entered().after_register(fd)),
    {
        self.registrations.enter();
        self.registrations.register(fd)
    }

    /// Requests that `fd` be watched no longer.
    pub fn deregister(&mut self, fd: i32) -> (outcome: Result<(), Error>)
        requires
            old(self).wf(),
            old(self)@.table.pending < usize::MAX,
        ensures
            final(self).wf(),
            outcome == old(self)@.table.deregister_outcome(fd),
            final(self)@ == old(self)@.after_request(old(self)@.table.entered().after_deregister(fd)),
    {
        self.registrations.enter();
        self.registrations.deregister(fd)
    }

    /// Asks whether `event` was seen on `fd`, and forgets that it was.
    pub fn fetch(&mut self, fd: i32, event: Event) -> (outcome: Result<bool, Error>)
        requires
            old(self).wf(),
            old(self)@.table.pending < usize::MAX,
        ensures
            final(self).wf(),
            outcome == old(self)@.table.fetch_outcome(fd, event),
            final(self)@ == old(self)@.after_request(old(self)@.table.entered().after_fetch(fd, event)),
    {
        self.registrations.enter();
        self.registrations.fetch(fd, event)
    }

    /// Asks whether `event` was seen on `fd`, as `fetch` does. If it was
    /// not, a copy of `waker` is set to wait for it.
    pub fn fetch_or_set(&mut self, fd: i32, event: Event, waker: &Waker) -> (outcome: Result<bool, Error>)
        requires
            old(self).wf(),
            old(self)@.table.pending < usize::MAX,
        ensures
            final(self).wf(),
            outcome == old(self)@.table.fetch_outcome(fd, event),
            exists|stored: Waker|
                final(self)@ == old(self)@.after_request(
                    old(self)@.table.entered().after_fetch_or_arm(fd, event, *waker, stored),
                ),
    {
        self.registrations.enter();
        let ghost entered = self.registrations@;
        match self.registrations.fetch(fd, event) {
            Ok(true) => {
                assert(self@ == old(self)@.after_request(entered.after_fetch_or_arm(fd, event, *waker, *waker)));
                Ok(true)
            },
            Ok(false) => {
                let ghost fetched = self.registrations@;
                proof {
                    entered.lemma_fetch_keeps(fd, event);
                }
                let _ = self.registrations.set(fd, event, waker);
                proof {
                    let stored = choose|stored: Waker|
                        self.registrations@ == fetched.after_arm(fd, event, *waker, stored);
                    assert(self@ == old(self)@.after_request(
                        entered.after_fetch_or_arm(fd, event, *waker, stored),
                    ));
                }
                Ok(false)
            },
            Err(error) => {
                assert(self@ == old(self)@.after_request(entered.after_fetch_or_arm(fd, event, *waker, *waker)));
                Err(error)
            },
        }
    }

    /// Goes once round the poll loop: rebuilds the readiness bitsets from
    /// the table, bounds the next poll, and takes note of every request
    /// made so far.
    fn rebuild(&mut self) -> (action: PollAction)
        requires
            old(self)@.table.wf(),
            old(self)@.table.channel.is_some(),
        ensures
            final(self).wf(),
            final(self)@ == old(self)@.rebuilt(old(self)@.table),
            action == PollAction::Release,
    {
        let outcome = self.registrations.set_fds(&mut self.fds);
        self.registrations.release();
        match outcome {
            Ok(Some(top)) => {
                proof {
                    old(self)@.table.lemma_top(top as int);
                }
                self.nfds = top + 1;
                self.phase = Phase::Releasing;
                PollAction::Release
            },
            _ => {
                proof {
                    assert(old(self)@.table.watches(old(self)@.table.channel.unwrap() as int));
                }
                unreached()
            },
        }
    }

    /// Ends the poll loop with `error`: gives the notification channel up,
    /// to be closed.
    fn end(&mut self, error: Error) -> (action: PollAction)
        requires
            old(self).wf(),
            old(self)@.running(),
        ensures
            final(self).wf(),
            final(self)@ == old(self)@.ended(error),
            action == old(self)@.ended_action(),
    {
        match self.registrations.destroy_notification() {
            Some(fd) => {
                self.phase = Phase::Closing(error);
                PollAction::Close { fd }
            },
            None => unreached(),
        }
    }

    /// Takes the outcome of `PollAction::Open`: the descriptor of the new
    /// channel, or why there is none.
    ///
    /// With a channel the poll loop starts: the readiness bitsets are built
    /// for the first poll. Without one the thread ends. A channel whose
    /// descriptor the table cannot take is closed again.
    pub fn opened(&mut self, outcome: Result<i32, Error>) -> (action: PollAction)
        requires
            old(self).wf(),
            old(self)@.phase == Phase::Opening,
        ensures
            final(self).wf(),
            final(self)@ == old(self)@.after_opened(outcome),
            action == old(self)@.opened_action(outcome),
    {
        match outcome {
            Ok(fd) => match self.registrations.create_notification(fd) {
                Ok(true) => self.rebuild(),
                Ok(false) => unreached(),
                Err(error) => {
                    self.phase = Phase::Closing(error);
                    PollAction::Close { fd }
                },
            },
            Err(error) => {
                self.phase = Phase::Stopped(error);
                PollAction::Exit(error)
            },
        }
    }

    /// Takes note that `PollAction::Release` was done: the poll is next,
    /// or, if the loop has failed, its end.
    pub fn released(&mut self) -> (action: PollAction)
        requires
            old(self).wf(),
            old(self)@.phase == Phase::Releasing || old(self)@.phase is Failing,
        ensures
            final(self).wf(),
            final(self)@ == old(self)@.after_released(),
            action == old(self)@.released_action(),
    {
        match self.phase {
            Phase::Failing(error) => self.end(error),
            _ => {
                self.phase = Phase::Polling;
                PollAction::Poll { nfds: self.nfds }
            },
        }
    }

    /// Takes the outcome of `PollAction::Poll`: the bitsets as the poll
    /// primitive left them, or why it failed.
    ///
    /// An interrupted poll is made again. Any other failure ends the loop.
    /// After a poll that went well the notification channel is drained
    /// before anything else.
    pub fn polled(&mut self, outcome: Result<Fds, Error>) -> (action: PollAction)
        requires
            old(self).wf(),
            old(self)@.phase == Phase::Polling,
        ensures
            final(self).wf(),
            final(self)@ == old(self)@.after_polled(found(outcome)),
            action == old(self)@.polled_action(found(outcome)),
    {
        match outcome {
            Ok(ready) => {
                match self.registrations.notification() {
                    Some(fd) => {
                        self.fds = ready;
                        self.phase = Phase::Draining;
                        PollAction::Drain { fd }
                    },
                    None => unreached(),
                }
            },
            Err(Error::Interrupted) => PollAction::Poll { nfds: self.nfds },
            Err(error) => self.end(error),
        }
    }

    /// Takes the outcome of `PollAction::Drain`. That there was nothing to
    /// read is no failure.
    ///
    /// The last poll's outcome is folded into the table, which wakes who
    /// waited for what was found, and the readiness bitsets are rebuilt for
    /// the next poll. Whether draining failed or not, every request made so
    /// far is taken note of.
    pub fn drained(&mut self, outcome: Result<(), Error>) -> (action: PollAction)
        requires
            old(self).wf(),
            old(self)@.phase == Phase::Draining,
        ensures
            final(self).wf(),
            final(self)@ == old(self)@.after_drained(outcome),
            action == PollAction::Release,
    {
        match unless_would_block(outcome) {
            Ok(_) => {
                self.registrations.update_events(&self.fds);
                self.rebuild()
            },
            Err(error) => {
                self.registrations.release();
                self.phase = Phase::Failing(error);
                PollAction::Release
            },
        }
    }

    /// Takes the outcome of `PollAction::Close`, and ends the thread: with
    /// the error that ended the loop, or with the one that closing gave.
    pub fn closed(&mut self, outcome: Result<(), Error>) -> (action: PollAction)
        requires
            old(self).wf(),
            old(self)@.phase is Closing,
        ensures
            final(self).wf(),
            final(self)@ == old(self)@.after_closed(outcome),
            action == PollAction::Exit(old(self)@.closed_error(outcome)),
    {
        let error = match outcome {
            Err(error) => error,
            Ok(_) => match self.phase {
                Phase::Closing(error) => error,
                _ => unreached(),
            },
        };
        self.phase = Phase::Stopped(error);
        PollAction::Exit(error)
    }
}

} // verus!
