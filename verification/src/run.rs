//! The search as a state machine.
//!
//! A run is the shared state (flags and counters) together with one record
//! per worker. It moves in four ways: a worker asks what to do next
//! ([`Run::poll`]), a worker reports what came of its request
//! ([`Run::answer`]), the search is cancelled ([`Run::cancel`]), and the
//! coordinator finds every worker stopped ([`Run::finish`]). The functions
//! here say what each move does; the laws below them hold of every run.

use vstd::prelude::*;
use crate::classify::Classification;
use crate::date::{MAX_DAY, MIN_DAY};
use crate::partition::{share_len, share_offset};

verus! {

/// Flags and counters of a search, as an observer sees them.
#[derive(Clone, Copy, Debug, PartialEq, Eq, Structural)]
pub struct SearchState {
    /// Whether a search is under way.
    pub running: bool,
    /// Whether the workers have been told to stop.
    pub stop_requested: bool,
    /// Number of answers that ended the search: records and protocol errors.
    pub found_count: usize,
    /// Number of days for which the registry holds no record.
    pub checked_count: usize,
    /// Number of days in the range.
    pub total_count: usize,
}

/// How a search ended.
#[derive(Clone, Copy, Debug, PartialEq, Eq, Structural)]
pub enum RunResult {
    /// A worker met a record or a protocol error.
    Found,
    /// Every day was asked about and none held a record.
    NotFound,
    /// The search was cancelled before it found anything.
    Aborted,
}

/// Why a worker stopped.
#[derive(Clone, Copy, Debug, PartialEq, Eq, Structural)]
pub enum StopReason {
    /// It has asked about every day of its share.
    RangeExhausted,
    /// It saw the stop signal.
    GlobalStopSignal,
    /// It found a record.
    LocalMatch,
    /// The registry answered it with a status other than 200.
    LocalProtocolError,
}

/// Where a worker stands.
#[derive(Clone, Copy, Debug, PartialEq, Eq, Structural)]
pub enum WorkerStatus {
    Iterating,
    Stopped(StopReason),
}

/// One worker: its share of the range and how far it has come.
#[derive(Clone, Copy, Debug, PartialEq, Eq, Structural)]
pub struct Worker {
    /// Number of the worker, from 1.
    pub id: usize,
    /// Day number of the first day of its share.
    pub first: i32,
    /// Day number of the last day of its share.
    pub last: i32,
    /// Day number of the day it asks about next.
    pub next: i32,
    /// Number of days for which it was told that no record is held.
    pub checked: usize,
    /// Whether it has sent a request and not yet reported what came of it.
    pub in_flight: bool,
    /// Whether it still iterates.
    pub status: WorkerStatus,
}

/// Largest number of days that a range can hold.
pub const MAX_SPAN: usize = 191_491_529;

impl SearchState {
    /// The state while no search has run.
    pub open spec fn idle() -> SearchState {
        SearchState {
            running: false,
            stop_requested: false,
            found_count: 0,
            checked_count: 0,
            total_count: 0,
        }
    }

    /// The state at the start of a search over `total` days.
    pub open spec fn opening(total: usize) -> SearchState {
        SearchState {
            running: true,
            stop_requested: false,
            found_count: 0,
            checked_count: 0,
            total_count: total,
        }
    }

    /// How the search ended, or would end if it ended now.
    pub open spec fn result(self) -> RunResult {
        if self.found_count > 0 {
            RunResult::Found
        } else if self.stop_requested {
            RunResult::Aborted
        } else {
            RunResult::NotFound
        }
    }

    /// How the search ended, or would end if it ended now: found if any
    /// worker met a record or a protocol error, else aborted if it was told
    /// to stop, else not found.
    pub fn outcome(&self) -> (r: RunResult)
        ensures
            r == self.result(),
    {
        if self.found_count > 0 {
            RunResult::Found
        } else if self.stop_requested {
            RunResult::Aborted
        } else {
            RunResult::NotFound
        }
    }
}

impl Worker {
    /// The worker that starts on share `i` of a range of `total` days that
    /// begins on day `first` and is cut into `k`.
    pub open spec fn assigned(first: int, total: int, k: int, i: int) -> Worker {
        let start = first + share_offset(total, k, i);
        Worker {
            id: (i + 1) as usize,
            first: start as i32,
            last: (start + share_len(total, k, i) - 1) as i32,
            next: start as i32,
            checked: 0,
            in_flight: false,
            status: WorkerStatus::Iterating,
        }
    }

    /// What every worker of a run satisfies: its share is not empty, it
    /// stands inside its share or just behind it, it has not been told of
    /// more days than it has passed, and a request is in flight only while
    /// it iterates and a day is left.
    pub open spec fn wf(self) -> bool {
        &&& MIN_DAY <= self.first <= self.last <= MAX_DAY
        &&& self.first <= self.next <= self.last + 1
        &&& self.checked <= self.next - self.first
        &&& self.in_flight ==> self.status is Iterating && self.next <= self.last
    }

    /// Number of days in the worker's share.
    pub open spec fn span(self) -> int {
        self.last - self.first + 1
    }

    /// Whether the worker itself met the answer that ended the search.
    pub open spec fn found(self) -> bool {
        self.status == WorkerStatus::Stopped(StopReason::LocalMatch) || self.status
            == WorkerStatus::Stopped(StopReason::LocalProtocolError)
    }

    /// Whether the worker has asked about every day of its share.
    pub open spec fn exhausted(self) -> bool {
        self.next > self.last
    }
}

/// What is counted over the workers of a run.
pub enum Measure {
    /// Days for which no record is held.
    Checked,
    /// Workers that met the answer that ended the search.
    Found,
    /// Days in a share.
    Span,
}

/// What one worker adds to a count.
pub open spec fn measure(w: Worker, m: Measure) -> int {
    match m {
        Measure::Checked => w.checked as int,
        Measure::Found => if w.found() {
            1
        } else {
            0
        },
        Measure::Span => w.span(),
    }
}

/// A count over all workers.
pub open spec fn tally(ws: Seq<Worker>, m: Measure) -> int
    decreases ws.len(),
{
    if ws.len() == 0 {
        0
    } else {
        tally(ws.drop_last(), m) + measure(ws.last(), m)
    }
}

/// Replacing one worker changes a count by what that worker adds to it.
pub proof fn lemma_tally_update(ws: Seq<Worker>, i: int, w: Worker, m: Measure)
    requires
        0 <= i < ws.len(),
    ensures
        tally(ws.update(i, w), m) == tally(ws, m) - measure(ws[i], m) + measure(w, m),
    decreases ws.len(),
{
    if i == ws.len() - 1 {
        assert(ws.update(i, w).drop_last() =~= ws.drop_last());
    } else {
        assert(ws.update(i, w).drop_last() =~= ws.drop_last().update(i, w));
        lemma_tally_update(ws.drop_last(), i, w, m);
    }
}

/// A count that is smaller worker by worker is smaller in all.
pub proof fn lemma_tally_bound(ws: Seq<Worker>, a: Measure, b: Measure)
    requires
        forall|i: int| 0 <= i < ws.len() ==> measure(#[trigger] ws[i], a) <= measure(ws[i], b),
    ensures
        tally(ws, a) <= tally(ws, b),
    decreases ws.len(),
{
    if ws.len() > 0 {
        assert forall|i: int| 0 <= i < ws.drop_last().len() implies measure(
            #[trigger] ws.drop_last()[i],
            a,
        ) <= measure(ws.drop_last()[i], b) by {
            assert(ws.drop_last()[i] == ws[i]);
        }
        lemma_tally_bound(ws.drop_last(), a, b);
    }
}

/// What can happen to a run.
pub enum Event {
    /// The worker with this index asks what to do next.
    Poll(int),
    /// The worker with this index reports what came of its request.
    Answer(int, Classification),
    /// The search is cancelled.
    Cancel,
    /// The coordinator looks whether every worker has stopped.
    Finish,
}

/// A search: the shared state and the workers.
pub struct Run {
    pub state: SearchState,
    pub workers: Seq<Worker>,
}

impl Run {
    /// The run before any search.
    pub open spec fn idle() -> Run {
        Run { state: SearchState::idle(), workers: Seq::empty() }
    }

    /// The run at the start of a search over `total` days from day `first`
    /// on with `k` workers asked for: one worker for each share that holds
    /// a day.
    pub open spec fn opened(first: int, total: int, k: int) -> Run {
        Run {
            state: SearchState::opening(total as usize),
            workers: Seq::new(
                (if k < total {
                    k
                } else {
                    total
                }) as nat,
                |i: int| Worker::assigned(first, total, k, i),
            ),
        }
    }

    /// What every run satisfies: the counters are the counts over the
    /// workers, no more days are shared out than the range holds, nothing
    /// was found without the stop signal being raised, and a run is over
    /// only once every worker has stopped.
    pub open spec fn wf(self) -> bool {
        &&& forall|i: int| 0 <= i < self.workers.len() ==> (#[trigger] self.workers[i]).wf()
        &&& self.state.checked_count == tally(self.workers, Measure::Checked)
        &&& self.state.found_count == tally(self.workers, Measure::Found)
        &&& tally(self.workers, Measure::Span) <= self.state.total_count <= MAX_SPAN
        &&& self.state.found_count > 0 ==> self.state.stop_requested
        &&& !self.state.running ==> self.all_stopped()
    }

    /// Whether `w` is a worker of the run.
    pub open spec fn has(self, w: int) -> bool {
        0 <= w < self.workers.len()
    }

    /// Whether every worker has stopped.
    pub open spec fn all_stopped(self) -> bool {
        forall|i: int| 0 <= i < self.workers.len() ==> (#[trigger] self.workers[i]).status is Stopped
    }

    /// The run with worker `w` replaced.
    pub open spec fn with_worker(self, w: int, worker: Worker) -> Run {
        Run { workers: self.workers.update(w, worker), ..self }
    }

    /// The run after worker `w` has asked what to do next. A worker that
    /// has stopped stays stopped, and one whose request is in flight stays
    /// as it is. Else the worker stops where the stop signal is raised or
    /// no day is left, and a request is in flight from now on otherwise.
    pub open spec fn poll(self, w: int) -> Run {
        let worker = self.workers[w];
        if !self.has(w) || worker.status is Stopped || worker.in_flight {
            self
        } else if self.state.stop_requested {
            self.with_worker(
                w,
                Worker { status: WorkerStatus::Stopped(StopReason::GlobalStopSignal), ..worker },
            )
        } else if worker.exhausted() {
            self.with_worker(
                w,
                Worker { status: WorkerStatus::Stopped(StopReason::RangeExhausted), ..worker },
            )
        } else {
            self.with_worker(w, Worker { in_flight: true, ..worker })
        }
    }

    /// The day about which worker `w` is to ask after it has asked what to
    /// do next, if there is one.
    pub open spec fn query_day(self, w: int) -> Option<int> {
        let after = self.poll(w).workers[w];
        if self.has(w) && after.in_flight {
            Some(after.next as int)
        } else {
            None
        }
    }

    /// The run after worker `w` has reported an outcome of kind `c`. The
    /// report counts only while a request of the worker is in flight. A
    /// failed request and a day without a record move the worker on by one
    /// day, the latter counted as checked; a record and a protocol error
    /// are counted as found, raise the stop signal and stop the worker.
    pub open spec fn answer(self, w: int, c: Classification) -> Run {
        let worker = self.workers[w];
        if !self.has(w) || !worker.in_flight {
            self
        } else {
            match c {
                Classification::TransportError => self.with_worker(
                    w,
                    Worker { next: (worker.next + 1) as i32, in_flight: false, ..worker },
                ),
                Classification::NoMatch => Run {
                    state: SearchState {
                        checked_count: (self.state.checked_count + 1) as usize,
                        ..self.state
                    },
                    workers: self.workers.update(
                        w,
                        Worker {
                            next: (worker.next + 1) as i32,
                            checked: (worker.checked + 1) as usize,
                            in_flight: false,
                            ..worker
                        },
                    ),
                },
                Classification::Match => Run {
                    state: SearchState {
                        found_count: (self.state.found_count + 1) as usize,
                        stop_requested: true,
                        ..self.state
                    },
                    workers: self.workers.update(
                        w,
                        Worker {
                            in_flight: false,
                            status: WorkerStatus::Stopped(StopReason::LocalMatch),
                            ..worker
                        },
                    ),
                },
                Classification::ProtocolError(_) => Run {
                    state: SearchState {
                        found_count: (self.state.found_count + 1) as usize,
                        stop_requested: true,
                        ..self.state
                    },
                    workers: self.workers.update(
                        w,
                        Worker {
                            in_flight: false,
                            status: WorkerStatus::Stopped(StopReason::LocalProtocolError),
                            ..worker
                        },
                    ),
                },
            }
        }
    }

    /// Whether cancelling changes anything: a search is under way and has
    /// not been told to stop.
    pub open spec fn can_cancel(self) -> bool {
        self.state.running && !self.state.stop_requested
    }

    /// The run after it was cancelled: the stop signal is raised, unless no
    /// search is under way.
    pub open spec fn cancel(self) -> Run {
        if self.can_cancel() {
            Run { state: SearchState { stop_requested: true, ..self.state }, ..self }
        } else {
            self
        }
    }

    /// The run after the coordinator has looked at the workers: it is over
    /// once every worker has stopped.
    pub open spec fn finish(self) -> Run {
        if self.all_stopped() {
            Run { state: SearchState { running: false, ..self.state }, ..self }
        } else {
            self
        }
    }

    /// The run after one event.
    pub open spec fn step(self, e: Event) -> Run {
        match e {
            Event::Poll(w) => self.poll(w),
            Event::Answer(w, c) => self.answer(w, c),
            Event::Cancel => self.cancel(),
            Event::Finish => self.finish(),
        }
    }

    /// The run after the events of `events`, in order.
    pub open spec fn replay(self, events: Seq<Event>) -> Run
        decreases events.len(),
    {
        if events.len() == 0 {
            self
        } else {
            self.replay(events.drop_last()).step(events.last())
        }
    }
}

} // verus!
