//! What a reactor holds, and what each step of its two protocols makes of
//! it.

use vstd::prelude::*;
use crate::error::Error;
use crate::event::Event;
use crate::fds::{Marks, FD_SETSIZE};
use crate::table::Table;

verus! {

/// Where the reactor stands in its life.
#[derive(Clone, Copy, Debug, PartialEq, Eq, Structural)]
pub enum Phase {
    /// No poll thread yet.
    NotStarted,
    /// The poll thread has to open the notification channel.
    Opening,
    /// The poll thread has to wake the callers that wait for their
    /// requests, and will poll next.
    Releasing,
    /// The poll thread is in the poll primitive.
    Polling,
    /// The poll thread has to drain the notification channel.
    Draining,
    /// The poll thread has to wake the callers that wait for their
    /// requests, and will end with this error.
    Failing(Error),
    /// The poll thread has to close the notification channel, and will end
    /// with this error unless closing fails.
    Closing(Error),
    /// The poll thread has ended, with this error. Nothing follows.
    Stopped(Error),
}

/// What the poll thread has to do next.
#[derive(Clone, Copy, Debug, PartialEq, Eq, Structural)]
pub enum PollAction {
    /// Open a notification channel that does not block, and report it with
    /// `opened`.
    Open,
    /// Wake every caller that waits for its request, and report with
    /// `released`.
    Release,
    /// Block in the poll primitive, without a timeout, on the bitsets of
    /// `fds` and the descriptors below `nfds`, and report with `polled`.
    Poll { nfds: i32 },
    /// Read the notification channel `fd` empty, and report with `drained`.
    Drain { fd: i32 },
    /// Close the notification channel `fd`, and report with `closed`.
    Close { fd: i32 },
    /// End the thread with this error.
    Exit(Error),
}

/// How signalling or draining the notification channel went, given how
/// the system call went: that the call would have had to block is no
/// failure. The channel then holds a signal already, or none.
pub open spec fn settled(outcome: Result<(), Error>) -> Result<(), Error> {
    match outcome {
        Err(Error::WouldBlock) => Ok(()),
        _ => outcome,
    }
}

/// What a reactor holds.
pub struct State {
    /// The registration table.
    pub table: Table,
    /// The readiness bitsets: what the next poll looks out for, or what the
    /// last one found.
    pub marks: Marks,
    /// One more than the largest descriptor that the next poll looks at.
    pub nfds: i32,
    /// Where the reactor stands.
    pub phase: Phase,
}

impl State {
    /// Whether the poll thread runs its loop.
    pub open spec fn running(self) -> bool {
        match self.phase {
            Phase::Releasing | Phase::Polling | Phase::Draining | Phase::Failing(_) => true,
            _ => false,
        }
    }

    /// What holds of every reactor: its table is as every table is, the
    /// notification channel exists exactly while the poll thread runs its
    /// loop, and a poll that is due has a bound within the bitsets.
    pub open spec fn wf(self) -> bool {
        &&& self.table.wf()
        &&& self.running() <==> self.table.channel.is_some()
        &&& self.phase == Phase::Releasing || self.phase == Phase::Polling ==> 0 < self.nfds <= FD_SETSIZE
    }

    /// A reactor that was just made, for a table of the given capacity.
    pub open spec fn initial(capacity: nat) -> State {
        State { table: Table::empty(capacity), marks: Marks::none(), nfds: 0, phase: Phase::NotStarted }
    }

    /// The reactor after `start`.
    pub open spec fn after_start(self) -> State {
        if self.phase == Phase::NotStarted {
            State { phase: Phase::Opening, ..self }
        } else {
            self
        }
    }

    /// The reactor after a request that leaves `table`.
    pub open spec fn after_request(self, table: Table) -> State {
        State { table, ..self }
    }

    /// The reactor when the poll thread has gone once round its loop over
    /// `table`: no request is pending, the bitsets hold what `table` waits
    /// for, and the poll is bounded by the largest descriptor in it.
    pub open spec fn rebuilt(self, table: Table) -> State {
        State {
            table: table.released(),
            marks: table.interest(),
            nfds: (table.top() + 1) as i32,
            phase: Phase::Releasing,
        }
    }

    /// The reactor after `opened`.
    pub open spec fn after_opened(self, outcome: Result<i32, Error>) -> State {
        match outcome {
            Ok(fd) => match self.table.create_outcome(fd) {
                Ok(_) => self.rebuilt(self.table.after_create(fd)),
                Err(error) => State { phase: Phase::Closing(error), ..self },
            },
            Err(error) => State { phase: Phase::Stopped(error), ..self },
        }
    }

    /// What `opened` answers.
    pub open spec fn opened_action(self, outcome: Result<i32, Error>) -> PollAction {
        match outcome {
            Ok(fd) => match self.table.create_outcome(fd) {
                Ok(_) => PollAction::Release,
                Err(_) => PollAction::Close { fd },
            },
            Err(error) => PollAction::Exit(error),
        }
    }

    /// The reactor when its loop has ended with `error`: it has given the
    /// notification channel up.
    pub open spec fn ended(self, error: Error) -> State {
        State { table: Table { channel: None, ..self.table }, phase: Phase::Closing(error), ..self }
    }

    /// What the reactor answers when its loop has ended.
    pub open spec fn ended_action(self) -> PollAction {
        PollAction::Close { fd: self.table.channel.unwrap() }
    }

    /// The reactor after `released`.
    pub open spec fn after_released(self) -> State {
        match self.phase {
            Phase::Failing(error) => self.ended(error),
            _ => State { phase: Phase::Polling, ..self },
        }
    }

    /// What `released` answers.
    pub open spec fn released_action(self) -> PollAction {
        match self.phase {
            Phase::Failing(_) => self.ended_action(),
            _ => PollAction::Poll { nfds: self.nfds },
        }
    }

    /// The reactor after `polled`.
    pub open spec fn after_polled(self, outcome: Result<Marks, Error>) -> State {
        match outcome {
            Ok(ready) => State { marks: ready, phase: Phase::Draining, ..self },
            Err(Error::Interrupted) => self,
            Err(error) => self.ended(error),
        }
    }

    /// What `polled` answers.
    pub open spec fn polled_action(self, outcome: Result<Marks, Error>) -> PollAction {
        match outcome {
            Ok(_) => PollAction::Drain { fd: self.table.channel.unwrap() },
            Err(Error::Interrupted) => PollAction::Poll { nfds: self.nfds },
            Err(_) => self.ended_action(),
        }
    }

    /// The reactor after `drained`.
    pub open spec fn after_drained(self, outcome: Result<(), Error>) -> State {
        match settled(outcome) {
            Ok(_) => self.rebuilt(self.table.folded(self.marks)),
            Err(error) => State { table: self.table.released(), phase: Phase::Failing(error), ..self },
        }
    }

    /// The reactor after `closed`.
    pub open spec fn after_closed(self, outcome: Result<(), Error>) -> State {
        State { phase: Phase::Stopped(self.closed_error(outcome)), ..self }
    }

    /// The error that the poll thread ends with after `closed`: the one
    /// that made it close the channel, unless closing failed too.
    pub open spec fn closed_error(self, outcome: Result<(), Error>) -> Error {
        match outcome {
            Err(error) => error,
            Ok(_) => self.phase->Closing_0,
        }
    }
}

impl State {
    /// When the poll primitive fails, and was not merely interrupted, the
    /// poll thread gives the notification channel up and has it closed,
    /// once: after that there is no channel, and the thread ends. It ends
    /// with the error of the poll unless closing fails too. Requests are
    /// still answered from the table, which is otherwise as it was.
    pub proof fn lemma_failed_poll_ends(self, error: Error, closing: Result<(), Error>)
        requires
            self.wf(),
            self.phase == Phase::Polling,
            error != Error::Interrupted,
        ensures
            self.polled_action(Err(error)) == (PollAction::Close { fd: self.table.channel.unwrap() }),
            ({
                let failed = self.after_polled(Err(error));
                let stopped = failed.after_closed(closing);
                &&& failed.wf()
                &&& failed.phase == Phase::Closing(error)
                &&& failed.table == (Table { channel: None, ..self.table })
                &&& stopped.wf()
                &&& stopped.table == failed.table
                &&& stopped.phase == Phase::Stopped(failed.closed_error(closing))
                &&& closing.is_ok() ==> failed.closed_error(closing) == error
                &&& !stopped.running()
            }),
    {
    }

    /// Whatever the poll thread reports, the reactor stays as every reactor
    /// is: in particular the notification channel exists exactly while the
    /// poll thread runs its loop.
    pub proof fn lemma_steps_keep(
        self,
        opening: Result<i32, Error>,
        polling: Result<Marks, Error>,
        draining: Result<(), Error>,
        closing: Result<(), Error>,
    )
        requires
            self.wf(),
        ensures
            self.after_start().wf(),
            self.phase == Phase::Opening ==> self.after_opened(opening).wf(),
            self.phase == Phase::Releasing || self.phase is Failing ==> self.after_released().wf(),
            self.phase == Phase::Polling ==> self.after_polled(polling).wf(),
            self.phase == Phase::Draining ==> self.after_drained(draining).wf(),
            self.phase is Closing ==> self.after_closed(closing).wf(),
    {
        if self.phase == Phase::Opening {
            if let Ok(fd) = opening {
                if self.table.create_outcome(fd).is_ok() {
                    self.lemma_rebuilt(self.table.after_create(fd));
                }
            }
        }
        if self.phase == Phase::Draining {
            self.table.lemma_folded_keeps(self.marks);
            self.lemma_rebuilt(self.table.folded(self.marks));
        }
    }

    /// Once round the poll loop, no request is pending, and the next poll
    /// looks out for the notification channel and for exactly what the
    /// table waits for at that moment.
    pub proof fn lemma_rebuilt(self, table: Table)
        requires
            table.wf(),
            table.channel.is_some(),
        ensures
            self.rebuilt(table).wf(),
            self.rebuilt(table).table.pending == 0,
            self.rebuilt(table).marks.read.contains(table.channel.unwrap() as int),
            forall|fd: i32, event: Event|
                table.has(fd) ==> (#[trigger] self.rebuilt(table).marks.marked(fd as int, event)
                    <==> table.slot(fd).waker(event).is_some()),
    {
        let channel = table.channel.unwrap();
        assert(table.watches(channel as int));
        table.lemma_watched_has_top();
        table.lemma_top(table.top());
        assert forall|fd: i32, event: Event| table.has(fd) implies (#[trigger] self.rebuilt(
            table,
        ).marks.marked(fd as int, event) <==> table.slot(fd).waker(event).is_some()) by {
            let index = table.index_of(fd);
            if table.awaits(fd as int, event) {
                let i = choose|i: int|
                    0 <= i < table.slots.len() && (#[trigger] table.slots[i]).fd == fd
                        && table.slots[i].waker(event).is_some();
                table.lemma_index_of(i);
            }
            if table.slot(fd).waker(event).is_some() {
                assert(table.slots[index].fd == fd);
            }
        }
    }
}

} // verus!
