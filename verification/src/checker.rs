//! The search as its user drives it: what was entered, the run, and the log.
//!
//! A [`VehicleChecker`] is meant to be shared by the thread that draws the
//! window and the threads that send requests, behind a lock. It decides;
//! the threads act on what it decides and tell it what came of it.

use vstd::prelude::*;
use crate::classify::{
    classification_of,
    classify_response,
    Classification,
    QueryOutcome,
    STATUS_OK,
};
use crate::date::{
    day_text,
    iso_text,
    parsed_day,
    ConfigError,
    Date,
    DateRange,
    DAY_PATTERN,
    MAX_DAY,
    MIN_DAY,
};
use crate::events::{
    appended,
    appended_all,
    clock_text,
    lemma_appended_all_push,
    lemma_stamped_chain,
    lemma_stamped_none,
    stamped,
    EventLog,
    Line,
    LogLevel,
};
use crate::laws::{
    lemma_answer_keeps_wf,
    lemma_counters_bounded,
    lemma_opened_wf,
    lemma_poll_keeps_wf,
    lemma_share_has_days,
    lemma_share_without_days,
};
use crate::messages::{
    completed_message,
    completed_text,
    error_preview_message,
    error_preview_text,
    http_error_message,
    http_error_text,
    match_preview_message,
    match_preview_text,
    plan_range_message,
    plan_range_text,
    plan_threads_message,
    plan_threads_text,
    plan_total_message,
    plan_total_text,
    plan_vehicle_message,
    plan_vehicle_text,
    progress_message,
    progress_text,
    record_found_message,
    record_found_text,
    save_failed_message,
    save_failed_text,
    saved_message,
    saved_text,
    status_running_message,
    status_running_text,
    stopped_message,
    stopped_text,
    stopping_on_error_message,
    stopping_on_error_text,
    transport_error_message,
    transport_error_text,
    worker_span_message,
    worker_span_text,
    CANCEL_NOTICE,
    DOUBLE_RULE,
    EMPTY_IDENTIFIER,
    FOUND_BANNER,
    INVALID_END,
    INVALID_START,
    INVERTED_RANGE,
    NO_WORKERS,
    RESULTS_NOTICE,
    RULE,
    STATUS_FOUND,
    STATUS_READY,
    STOP_NOTICE,
};
use crate::partition::{is_partition, is_share, partition};
use crate::request::{build_request_body, filename_text, request_body, result_filename};
use crate::run::{Run, SearchState, StopReason, Worker, WorkerStatus};
use crate::text::{preview, preview_text, to_upper, trim, trimmed_of, uppercase_of};

verus! {

/// First day of the range that a new checker proposes.
pub const DEFAULT_START: &'static str = "2000-01-01";

/// Number of workers that a new checker proposes.
pub const DEFAULT_THREADS: usize = 6;

/// What a worker is to do next.
#[derive(Debug)]
pub enum WorkerAction {
    /// Send `body` to the registry: it asks about the day with number `day`.
    Query { day: i32, body: Vec<u8> },
    /// Stop.
    Halt(StopReason),
}

/// An answer that is to be kept in a file.
#[derive(Debug)]
pub struct SaveRequest {
    /// Number of the worker that got the answer.
    pub thread_id: usize,
    /// Status of the answer.
    pub status: u16,
    /// Name of the file, inside the directory of results.
    pub filename: String,
}

/// How the status of the search is to be shown.
#[derive(Clone, Copy, Debug, PartialEq, Eq, Structural)]
pub enum StatusTone {
    Found,
    Running,
    Idle,
}

/// What is entered for a search.
#[derive(Clone, Debug)]
pub struct SearchForm {
    /// The identifier.
    pub vehicle_no: String,
    /// The first day, as `YYYY-MM-DD`.
    pub start_date: String,
    /// The last day, as `YYYY-MM-DD`.
    pub end_date: String,
    /// Number of workers asked for.
    pub num_threads: usize,
}

/// The search: the run, the log and the status shown.
pub struct VehicleChecker {
    identifier: String,
    state: SearchState,
    workers: Vec<Worker>,
    logs: EventLog,
    status_text: String,
}

/// Why a search with these entries cannot start, if it cannot. The entries
/// are looked at in this order: the identifier, the first day, the last
/// day, their order, the number of workers.
pub open spec fn start_error(
    vehicle_no: Seq<char>,
    start_date: Seq<char>,
    end_date: Seq<char>,
    num_threads: usize,
) -> Option<ConfigError> {
    if trimmed_of(vehicle_no).len() == 0 {
        Some(ConfigError::EmptyIdentifier)
    } else if parsed_day(trimmed_of(start_date)) is None {
        Some(ConfigError::InvalidStartDate)
    } else if parsed_day(trimmed_of(end_date)) is None {
        Some(ConfigError::InvalidEndDate)
    } else if parsed_day(trimmed_of(start_date))->0 > parsed_day(trimmed_of(end_date))->0 {
        Some(ConfigError::InvertedRange)
    } else if num_threads == 0 {
        Some(ConfigError::InvalidWorkerCount)
    } else {
        None
    }
}

/// What is reported where a search cannot start.
pub open spec fn error_line(e: ConfigError) -> Line {
    Line {
        level: LogLevel::Error,
        message: match e {
            ConfigError::EmptyIdentifier => EMPTY_IDENTIFIER@,
            ConfigError::InvalidStartDate => INVALID_START@,
            ConfigError::InvalidEndDate => INVALID_END@,
            ConfigError::InvertedRange => INVERTED_RANGE@,
            ConfigError::InvalidWorkerCount => NO_WORKERS@,
        },
    }
}

/// The line that names the days of one worker.
pub open spec fn span_line(w: Worker) -> Line {
    Line {
        level: LogLevel::Info,
        message: worker_span_text(w.id as nat, iso_text(w.first as int), iso_text(w.last as int)),
    }
}

/// What is reported where a search starts: the plan, the days of every
/// worker, and a rule below them.
pub open spec fn plan_lines(
    identifier: Seq<char>,
    start_date: Seq<char>,
    end_date: Seq<char>,
    num_threads: usize,
    run: Run,
) -> Seq<Line> {
    seq![
        Line { level: LogLevel::Info, message: plan_vehicle_text(identifier) },
        Line { level: LogLevel::Info, message: plan_range_text(start_date, end_date) },
        Line { level: LogLevel::Info, message: plan_total_text(run.state.total_count as nat) },
        Line {
            level: LogLevel::Info,
            message: plan_threads_text(
                num_threads as nat,
                (run.state.total_count / num_threads) as nat,
            ),
        },
        Line { level: LogLevel::Info, message: RESULTS_NOTICE@ },
        Line { level: LogLevel::Warning, message: STOP_NOTICE@ },
        Line { level: LogLevel::Info, message: RULE@ },
    ] + Seq::new(run.workers.len(), |i: int| span_line(run.workers[i])) + seq![
        Line { level: LogLevel::Info, message: RULE@ },
    ]
}

/// What a worker reports where it asks what to do next: nothing while it
/// goes on, a warning where it stops. A worker that stops on the signal
/// after something was found says so; one that stops because its days are
/// used up, or on a signal raised by cancelling, says how many days it
/// checked.
pub open spec fn poll_lines(run: Run, w: int) -> Seq<Line> {
    let worker = run.workers[w];
    if !run.has(w) || worker.status is Stopped || worker.in_flight {
        Seq::empty()
    } else if run.state.stop_requested && run.state.found_count > 0 {
        seq![Line { level: LogLevel::Warning, message: stopped_text(worker.id as nat) }]
    } else if run.state.stop_requested || worker.exhausted() {
        seq![
            Line {
                level: LogLevel::Warning,
                message: completed_text(worker.id as nat, worker.checked as nat),
            },
        ]
    } else {
        Seq::empty()
    }
}

/// What a worker reports with the outcome of a request: the error of a
/// request that failed; every tenth day without a record; the protocol
/// error; the record found. Nothing is reported for a worker that has no
/// request in flight.
pub open spec fn answer_lines(run: Run, w: int, identifier: Seq<char>, outcome: QueryOutcome) -> Seq<
    Line,
> {
    let worker = run.workers[w];
    let id = worker.id as nat;
    let date = iso_text(worker.next as int);
    if !run.has(w) || !worker.in_flight {
        Seq::empty()
    } else {
        match outcome {
            QueryOutcome::Failed { error } => seq![
                Line { level: LogLevel::Error, message: transport_error_text(id, date, error@) },
            ],
            QueryOutcome::Response { status, body } => match classification_of(outcome) {
                Classification::NoMatch => if (worker.checked + 1) % 10 == 0 {
                    seq![
                        Line {
                            level: LogLevel::Info,
                            message: progress_text(id, (worker.checked + 1) as nat, date),
                        },
                    ]
                } else {
                    Seq::empty()
                },
                Classification::ProtocolError(_) => seq![
                    Line {
                        level: LogLevel::Error,
                        message: http_error_text(id, status as nat, identifier, date),
                    },
                ],
                Classification::Match => seq![
                    Line {
                        level: LogLevel::Success,
                        message: record_found_text(id, identifier, date),
                    },
                    Line { level: LogLevel::Success, message: DOUBLE_RULE@ },
                    Line { level: LogLevel::Success, message: FOUND_BANNER@ },
                    Line { level: LogLevel::Success, message: DOUBLE_RULE@ },
                ],
                Classification::TransportError => Seq::empty(),
            },
        }
    }
}

/// The answer that is to be kept after an outcome was reported, if any: a
/// record or a protocol error, met by a worker whose request was in flight.
pub open spec fn save_due(run: Run, w: int, outcome: QueryOutcome) -> bool {
    &&& run.has(w)
    &&& run.workers[w].in_flight
    &&& classification_of(outcome) == Classification::Match || classification_of(outcome)
         is ProtocolError
}

/// What is reported once the caller has tried to keep an answer: whether
/// the file was written, the start of the answer, and that the worker has
/// stopped; for a protocol error also that it ends the search.
pub open spec fn save_lines(
    thread_id: usize,
    status: u16,
    filename: Seq<char>,
    body: Seq<char>,
    failure: Option<Seq<char>>,
) -> Seq<Line> {
    let id = thread_id as nat;
    let kept = match failure {
        None => Line { level: LogLevel::Success, message: saved_text(id, filename) },
        Some(error) => Line { level: LogLevel::Error, message: save_failed_text(id, error) },
    };
    if status != STATUS_OK {
        seq![
            kept,
            Line { level: LogLevel::Error, message: error_preview_text(preview_text(body)) },
            Line { level: LogLevel::Warning, message: stopping_on_error_text(id, status as nat) },
            Line { level: LogLevel::Warning, message: stopped_text(id) },
        ]
    } else {
        seq![
            kept,
            Line { level: LogLevel::Success, message: match_preview_text(preview_text(body)) },
            Line { level: LogLevel::Warning, message: stopped_text(id) },
        ]
    }
}

/// The status that is shown for a state.
pub open spec fn status_of(s: SearchState) -> Seq<char> {
    if !s.running && s.found_count > 0 {
        STATUS_FOUND@
    } else if !s.running {
        STATUS_READY@
    } else {
        status_running_text(s.checked_count as nat, s.total_count as nat)
    }
}

/// How the status is shown for a state.
pub open spec fn tone_of(s: SearchState) -> StatusTone {
    if s.found_count > 0 {
        StatusTone::Found
    } else if s.running {
        StatusTone::Running
    } else {
        StatusTone::Idle
    }
}

/// Reports one event more of a run of events: `sofar` are the events of
/// the run reported before it, `base` the log and `marks` its times before
/// the run.
fn emit(
    logs: &mut EventLog,
    message: String,
    level: LogLevel,
    Ghost(base): Ghost<Seq<Line>>,
    Ghost(sofar): Ghost<Seq<Line>>,
    Ghost(marks): Ghost<Seq<Seq<char>>>,
)
    requires
        old(logs)@ == appended_all(base, sofar),
        stamped(marks, old(logs).stamps(), sofar.len()),
    ensures
        final(logs)@ == appended_all(base, sofar.push(Line { level, message: message@ })),
        stamped(marks, final(logs).stamps(), sofar.len() + 1),
{
    proof {
        lemma_appended_all_push(base, sofar, Line { level, message: message@ });
    }
    let ghost before = logs.stamps();
    logs.report(message, level);
    proof {
        lemma_stamped_chain(marks, before, logs.stamps(), sofar.len(), 1);
    }
}

fn error_message(e: ConfigError) -> (m: &'static str)
    ensures
        m@ == error_line(e).message,
{
    match e {
        ConfigError::EmptyIdentifier => EMPTY_IDENTIFIER,
        ConfigError::InvalidStartDate => INVALID_START,
        ConfigError::InvalidEndDate => INVALID_END,
        ConfigError::InvertedRange => INVERTED_RANGE,
        ConfigError::InvalidWorkerCount => NO_WORKERS,
    }
}

/// Gives every share that holds a day its worker.
fn assign_workers(range: &DateRange, k: usize, shares: &Vec<Option<DateRange>>) -> (ws: Vec<
    Worker,
>)
    requires
        k >= 1,
        is_partition(shares@, *range, k as int),
    ensures
        ws@ == Run::opened(range.first(), range.len(), k as int).workers,
{
    let ghost first = range.first();
    let ghost total = range.len();
    let ghost kk = k as int;
    let days: i64 = range.total_days();
    let mut ws: Vec<Worker> = Vec::new();
    let mut i: usize = 0;
    while i < k
        invariant
            0 <= i <= k,
            k >= 1,
            kk == k as int,
            shares@.len() == k,
            is_partition(shares@, *range, kk),
            first == range.first(),
            total == range.len(),
            total == days,
            total >= 1,
            ws@ =~= Seq::new(
                (if i < total {
                    i as int
                } else {
                    total
                }) as nat,
                |j: int| Worker::assigned(first, total, kk, j),
            ),
        decreases k - i,
    {
        assert(is_share(shares@[i as int], *range, kk, i as int));
        proof {
            if i < total {
                lemma_share_has_days(total, kk, i as int);
            } else {
                lemma_share_without_days(total, kk, i as int);
            }
        }
        match shares[i] {
            Some(days_of) => {
                let start: i32 = days_of.first_day();
                let end: i32 = days_of.last_day();
                let w = Worker {
                    id: i + 1,
                    first: start,
                    last: end,
                    next: start,
                    checked: 0,
                    in_flight: false,
                    status: WorkerStatus::Iterating,
                };
                assert(w == Worker::assigned(first, total, kk, i as int));
                ws.push(w);
            },
            None => {},
        }
        i = i + 1;
    }
    ws
}

/// Reports the days of every worker.
fn report_spans(
    logs: &mut EventLog,
    workers: &Vec<Worker>,
    Ghost(base): Ghost<Seq<Line>>,
    Ghost(sofar): Ghost<Seq<Line>>,
    Ghost(marks): Ghost<Seq<Seq<char>>>,
)
    requires
        old(logs)@ == appended_all(base, sofar),
        stamped(marks, old(logs).stamps(), sofar.len()),
        forall|i: int| 0 <= i < workers@.len() ==> (#[trigger] workers@[i]).wf(),
    ensures
        final(logs)@ == appended_all(
            base,
            sofar + Seq::new(workers@.len(), |i: int| span_line(workers@[i])),
        ),
        stamped(marks, final(logs).stamps(), sofar.len() + workers@.len()),
{
    let mut i: usize = 0;
    let ghost mut done: Seq<Line> = sofar;
    while i < workers.len()
        invariant
            0 <= i <= workers.len(),
            forall|j: int| 0 <= j < workers@.len() ==> (#[trigger] workers@[j]).wf(),
            logs@ == appended_all(base, done),
            stamped(marks, logs.stamps(), done.len()),
            done =~= sofar + Seq::new(i as nat, |j: int| span_line(workers@[j])),
        decreases workers.len() - i,
    {
        let w = workers[i];
        assert(w.wf());
        let m = worker_span_message(w.id as u64, day_text(w.first).as_str(), day_text(w.last).as_str());
        emit(logs, m, LogLevel::Info, Ghost(base), Ghost(done), Ghost(marks));
        proof {
            done = done.push(span_line(w));
        }
        i = i + 1;
    }
}

impl SearchForm {
    /// The entries that a new window proposes: no identifier, the range
    /// from the first day of 2000 to the day that the clock gives, six
    /// workers.
    pub fn new() -> (form: SearchForm)
        ensures
            form.vehicle_no@ == Seq::<char>::empty(),
            form.start_date@ == DEFAULT_START@,
            form.num_threads == DEFAULT_THREADS,
    {
        SearchForm {
            vehicle_no: String::new(),
            start_date: String::from_str(DEFAULT_START),
            end_date: clock_text(DAY_PATTERN),
            num_threads: DEFAULT_THREADS,
        }
    }
}

impl Default for SearchForm {
    fn default() -> (form: SearchForm)
        ensures
            form.vehicle_no@ == Seq::<char>::empty(),
            form.start_date@ == DEFAULT_START@,
            form.num_threads == DEFAULT_THREADS,
    {
        SearchForm::new()
    }
}

impl Default for VehicleChecker {
    fn default() -> (c: VehicleChecker)
        ensures
            c.wf(),
            c.run() == Run::idle(),
            c.lines() == Seq::<Line>::empty(),
            c.stamps() == Seq::<Seq<char>>::empty(),
            c.identifier() == Seq::<char>::empty(),
            c.status() == STATUS_READY@,
    {
        VehicleChecker::new()
    }
}

impl VehicleChecker {
    /// The run: the shared state and the workers.
    pub closed spec fn run(&self) -> Run {
        Run { state: self.state, workers: self.workers@ }
    }

    /// The events in the log, oldest first.
    pub closed spec fn lines(&self) -> Seq<Line> {
        self.logs@
    }

    /// The times at which the events in the log were reported, oldest
    /// first.
    pub closed spec fn stamps(&self) -> Seq<Seq<char>> {
        self.logs.stamps()
    }

    /// The identifier that the search asks about: what was entered at its
    /// start, trimmed and in upper case.
    pub closed spec fn identifier(&self) -> Seq<char> {
        self.identifier@
    }

    /// The status as it was last worked out.
    pub closed spec fn status(&self) -> Seq<char> {
        self.status_text@
    }

    /// Every event in the log has its time.
    pub proof fn lemma_one_time_each(&self)
        ensures
            self.stamps().len() == self.lines().len(),
    {
        self.logs.lemma_one_time_each();
    }

    /// Whether the run is well formed.
    pub open spec fn wf(&self) -> bool {
        self.run().wf()
    }

    /// Whether `other` differs in the log at most.
    pub open spec fn same_but_log(&self, other: &VehicleChecker) -> bool {
        &&& self.run() == other.run()
        &&& self.identifier() == other.identifier()
        &&& self.status() == other.status()
    }

    /// A checker before any search: no run, an empty log.
    pub fn new() -> (c: VehicleChecker)
        ensures
            c.wf(),
            c.run() == Run::idle(),
            c.lines() == Seq::<Line>::empty(),
            c.stamps() == Seq::<Seq<char>>::empty(),
            c.identifier() == Seq::<char>::empty(),
            c.status() == STATUS_READY@,
    {
        let c = VehicleChecker {
            identifier: String::new(),
            state: SearchState {
                running: false,
                stop_requested: false,
                found_count: 0,
                checked_count: 0,
                total_count: 0,
            },
            workers: Vec::new(),
            logs: EventLog::new(),
            status_text: String::from_str(STATUS_READY),
        };
        assert(c.run().workers =~= Run::idle().workers);
        c
    }

    /// Reports an event, stamped with the local time.
    pub fn log(&mut self, message: String, level: LogLevel)
        ensures
            final(self).lines() == appended(old(self).lines(), (Line { level, message: message@ })),
            stamped(old(self).stamps(), final(self).stamps(), 1),
            final(self).same_but_log(old(self)),
    {
        self.logs.report(message, level);
    }

    /// Empties the log.
    pub fn clear_logs(&mut self)
        ensures
            final(self).lines() == Seq::<Line>::empty(),
            final(self).stamps() == Seq::<Seq<char>>::empty(),
            final(self).same_but_log(old(self)),
    {
        self.logs.clear();
    }

    /// The log.
    pub fn logs(&self) -> (log: &EventLog)
        ensures
            log@ == self.lines(),
            log.stamps() == self.stamps(),
    {
        &self.logs
    }

    /// The identifier that the search asks about.
    pub fn search_key(&self) -> (key: &str)
        ensures
            key@ == self.identifier(),
    {
        self.identifier.as_str()
    }

    /// The shared state as it stands.
    pub fn snapshot(&self) -> (s: SearchState)
        ensures
            s == self.run().state,
    {
        self.state
    }

    /// Number of workers of the run.
    pub fn worker_count(&self) -> (n: usize)
        ensures
            n == self.run().workers.len(),
    {
        self.workers.len()
    }

    /// Worker `w` of the run, if there is one.
    pub fn worker(&self, w: usize) -> (r: Option<Worker>)
        ensures
            r is Some <==> self.run().has(w as int),
            r matches Some(worker) ==> worker == self.run().workers[w as int],
    {
        if w < self.workers.len() {
            Some(self.workers[w])
        } else {
            None
        }
    }

    /// Reports why a search cannot start.
    fn refuse(&mut self, e: ConfigError)
        ensures
            final(self).lines() == appended(old(self).lines(), error_line(e)),
            stamped(old(self).stamps(), final(self).stamps(), 1),
            final(self).same_but_log(old(self)),
    {
        self.logs.report(String::from_str(error_message(e)), LogLevel::Error);
    }

    /// Starts a search with the entries of `form`, or reports why it cannot
    /// start and leaves the run as it is. A search starts with the stop
    /// signal lowered and the counters at zero. The range is cut into as
    /// many shares as workers were asked for; the result is the number of
    /// workers that have a day to ask about, each of which is to be run by
    /// the caller.
    pub fn start_checking(&mut self, form: &SearchForm) -> (r: Result<usize, ConfigError>)
        ensures
            r is Err <==> start_error(
                form.vehicle_no@,
                form.start_date@,
                form.end_date@,
                form.num_threads,
            ) is Some,
            r matches Err(e) ==> {
                &&& start_error(
                    form.vehicle_no@,
                    form.start_date@,
                    form.end_date@,
                    form.num_threads,
                ) == Some(e)
                &&& final(self).lines() == appended(old(self).lines(), error_line(e))
                &&& stamped(old(self).stamps(), final(self).stamps(), 1)
                &&& final(self).same_but_log(old(self))
            },
            r matches Ok(n) ==> {
                let first = parsed_day(trimmed_of(form.start_date@))->0;
                let last = parsed_day(trimmed_of(form.end_date@))->0;
                &&& MIN_DAY <= first <= last <= MAX_DAY
                &&& final(self).run().state.total_count == last - first + 1
                &&& final(self).run() == Run::opened(
                    first,
                    last - first + 1,
                    form.num_threads as int,
                )
                &&& final(self).wf()
                &&& n == final(self).run().workers.len()
                &&& final(self).identifier() == uppercase_of(trimmed_of(form.vehicle_no@))
                &&& final(self).lines() == appended_all(
                    old(self).lines(),
                    plan_lines(
                        final(self).identifier(),
                        trimmed_of(form.start_date@),
                        trimmed_of(form.end_date@),
                        form.num_threads,
                        final(self).run(),
                    ),
                )
                &&& stamped(
                    old(self).stamps(),
                    final(self).stamps(),
                    (final(self).run().workers.len() + 8) as nat,
                )
                &&& final(self).status() == old(self).status()
            },
    {
        let identifier = to_upper(trim(form.vehicle_no.as_str()));
        if identifier.as_str().is_empty() {
            self.refuse(ConfigError::EmptyIdentifier);
            return Err(ConfigError::EmptyIdentifier);
        }
        let start_text = trim(form.start_date.as_str());
        let end_text = trim(form.end_date.as_str());
        let start = match Date::parse(start_text) {
            Some(d) => d,
            None => {
                self.refuse(ConfigError::InvalidStartDate);
                return Err(ConfigError::InvalidStartDate);
            },
        };
        let end = match Date::parse(end_text) {
            Some(d) => d,
            None => {
                self.refuse(ConfigError::InvalidEndDate);
                return Err(ConfigError::InvalidEndDate);
            },
        };
        let range = match DateRange::new(start, end) {
            Ok(range) => range,
            Err(e) => {
                self.refuse(e);
                return Err(e);
            },
        };
        let k: usize = form.num_threads;
        let shares = match partition(&range, k) {
            Ok(shares) => shares,
            Err(e) => {
                self.refuse(e);
                return Err(e);
            },
        };
        let total: usize = range.total_days() as usize;
        proof {
            lemma_opened_wf(range.first(), range.len(), k as int);
        }
        let workers = assign_workers(&range, k, &shares);
        let n: usize = workers.len();
        let ghost base = self.logs@;
        let ghost marks = self.logs.stamps();
        proof {
            lemma_stamped_none(marks, marks);
        }
        let ghost opened = Run::opened(range.first(), range.len(), k as int);
        let ghost head = plan_lines(identifier@, start_text@, end_text@, k, opened).take(7);
        let ghost mut sofar: Seq<Line> = Seq::empty();
        emit(
            &mut self.logs,
            plan_vehicle_message(identifier.as_str()),
            LogLevel::Info,
            Ghost(base),
            Ghost(sofar),
            Ghost(marks),
        );
        proof {
            sofar = sofar.push(head[0]);
        }
        emit(
            &mut self.logs,
            plan_range_message(start_text, end_text),
            LogLevel::Info,
            Ghost(base),
            Ghost(sofar),
            Ghost(marks),
        );
        proof {
            sofar = sofar.push(head[1]);
        }
        emit(
            &mut self.logs,
            plan_total_message(total as u64),
            LogLevel::Info,
            Ghost(base),
            Ghost(sofar),
            Ghost(marks),
        );
        proof {
            sofar = sofar.push(head[2]);
        }
        emit(
            &mut self.logs,
            plan_threads_message(k as u64, (total / k) as u64),
            LogLevel::Info,
            Ghost(base),
            Ghost(sofar),
            Ghost(marks),
        );
        proof {
            sofar = sofar.push(head[3]);
        }
        emit(
            &mut self.logs,
            String::from_str(RESULTS_NOTICE),
            LogLevel::Info,
            Ghost(base),
            Ghost(sofar),
            Ghost(marks),
        );
        proof {
            sofar = sofar.push(head[4]);
        }
        emit(
            &mut self.logs,
            String::from_str(STOP_NOTICE),
            LogLevel::Warning,
            Ghost(base),
            Ghost(sofar),
            Ghost(marks),
        );
        proof {
            sofar = sofar.push(head[5]);
        }
        emit(&mut self.logs, String::from_str(RULE), LogLevel::Info, Ghost(base), Ghost(sofar), Ghost(marks));
        proof {
            sofar = sofar.push(head[6]);
        }
        report_spans(&mut self.logs, &workers, Ghost(base), Ghost(sofar), Ghost(marks));
        proof {
            sofar = sofar + Seq::new(workers@.len(), |i: int| span_line(workers@[i]));
        }
        emit(&mut self.logs, String::from_str(RULE), LogLevel::Info, Ghost(base), Ghost(sofar), Ghost(marks));
        proof {
            sofar = sofar.push(Line { level: LogLevel::Info, message: RULE@ });
            assert(sofar =~= plan_lines(identifier@, start_text@, end_text@, k, opened));
        }
        self.identifier = identifier;
        self.state =
        SearchState {
            running: true,
            stop_requested: false,
            found_count: 0,
            checked_count: 0,
            total_count: total,
        };
        self.workers = workers;
        assert(self.run() == opened);
        Ok(n)
    }

    /// Tells worker `w` what to do next. A worker that has stopped is told
    /// so again, as is one that the run does not have; a worker whose
    /// request is in flight is handed the same request again. Else the
    /// worker stops where the stop signal is raised or its days are used up,
    /// and is handed the request for its next day otherwise.
    pub fn next_action(&mut self, w: usize) -> (action: WorkerAction)
        requires
            old(self).wf(),
        ensures
            final(self).wf(),
            final(self).run() == old(self).run().poll(w as int),
            final(self).lines() == appended_all(
                old(self).lines(),
                poll_lines(old(self).run(), w as int),
            ),
            stamped(
                old(self).stamps(),
                final(self).stamps(),
                poll_lines(old(self).run(), w as int).len(),
            ),
            final(self).identifier() == old(self).identifier(),
            final(self).status() == old(self).status(),
            match action {
                WorkerAction::Query { day, body } => {
                    &&& old(self).run().query_day(w as int) == Some(day as int)
                    &&& body@ == request_body(old(self).identifier(), iso_text(day as int))
                },
                WorkerAction::Halt(reason) => {
                    &&& old(self).run().query_day(w as int) is None
                    &&& if old(self).run().has(w as int) {
                        final(self).run().workers[w as int].status == WorkerStatus::Stopped(reason)
                    } else {
                        reason == StopReason::RangeExhausted
                    }
                },
            },
    {
        proof {
            lemma_poll_keeps_wf(self.run(), w as int);
            lemma_stamped_none(self.stamps(), self.stamps());
        }
        if w >= self.workers.len() {
            return WorkerAction::Halt(StopReason::RangeExhausted);
        }
        let worker = self.workers[w];
        assert(worker.wf());
        match worker.status {
            WorkerStatus::Stopped(reason) => {
                return WorkerAction::Halt(reason);
            },
            WorkerStatus::Iterating => {},
        }
        if worker.in_flight {
            let date = day_text(worker.next);
            let body = build_request_body(self.identifier.as_str(), date.as_str());
            return WorkerAction::Query { day: worker.next, body };
        }
        let ghost base = self.logs@;
        let ghost marks = self.logs.stamps();
        proof {
            lemma_stamped_none(marks, marks);
        }
        let ghost before = self.run();
        if self.state.stop_requested || worker.next > worker.last {
            let reason = if self.state.stop_requested {
                StopReason::GlobalStopSignal
            } else {
                StopReason::RangeExhausted
            };
            let message = if self.state.stop_requested && self.state.found_count > 0 {
                stopped_message(worker.id as u64)
            } else {
                completed_message(worker.id as u64, worker.checked as u64)
            };
            emit(&mut self.logs, message, LogLevel::Warning, Ghost(base), Ghost(Seq::empty()), Ghost(marks));
            self.workers.set(w, Worker { status: WorkerStatus::Stopped(reason), ..worker });
            proof {
                assert(Seq::<Line>::empty().push(poll_lines(before, w as int)[0]) =~= poll_lines(
                    before,
                    w as int,
                ));
                assert(self.run().workers =~= before.poll(w as int).workers);
            }
            return WorkerAction::Halt(reason);
        }
        self.workers.set(w, Worker { in_flight: true, ..worker });
        proof {
            assert(self.run().workers =~= before.poll(w as int).workers);
        }
        let date = day_text(worker.next);
        let body = build_request_body(self.identifier.as_str(), date.as_str());
        WorkerAction::Query { day: worker.next, body }
    }

    /// Takes what came of the request of worker `w`. A request that failed
    /// is reported and the worker moves on; a day without a record is
    /// counted and the worker moves on; a record or a protocol error is
    /// counted as found, raises the stop signal and stops the worker, and
    /// the answer is handed back to be kept in a file. A report from a
    /// worker without a request in flight changes nothing.
    pub fn record_outcome(&mut self, w: usize, outcome: &QueryOutcome) -> (save: Option<
        SaveRequest,
    >)
        requires
            old(self).wf(),
        ensures
            final(self).wf(),
            final(self).run() == old(self).run().answer(w as int, classification_of(*outcome)),
            final(self).lines() == appended_all(
                old(self).lines(),
                answer_lines(old(self).run(), w as int, old(self).identifier(), *outcome),
            ),
            stamped(
                old(self).stamps(),
                final(self).stamps(),
                answer_lines(old(self).run(), w as int, old(self).identifier(), *outcome).len(),
            ),
            final(self).identifier() == old(self).identifier(),
            final(self).status() == old(self).status(),
            save is Some <==> save_due(old(self).run(), w as int, *outcome),
            save matches Some(request) ==> {
                &&& *outcome matches QueryOutcome::Response { status, body }
                &&& request.thread_id == old(self).run().workers[w as int].id
                &&& request.status == status
                &&& request.filename@ == filename_text(
                    old(self).identifier(),
                    iso_text(old(self).run().workers[w as int].next as int),
                    status,
                )
            },
    {
        proof {
            lemma_answer_keeps_wf(self.run(), w as int, classification_of(*outcome));
            lemma_counters_bounded(self.run());
            lemma_stamped_none(self.stamps(), self.stamps());
        }
        if w >= self.workers.len() {
            return None;
        }
        let worker = self.workers[w];
        assert(worker.wf());
        if !worker.in_flight {
            return None;
        }
        let ghost base = self.logs@;
        let ghost marks = self.logs.stamps();
        proof {
            lemma_stamped_none(marks, marks);
        }
        let ghost before = self.run();
        let ghost lines = answer_lines(before, w as int, self.identifier@, *outcome);
        let ghost after = before.answer(w as int, classification_of(*outcome));
        let id: u64 = worker.id as u64;
        let date = day_text(worker.next);
        match outcome {
            QueryOutcome::Failed { error } => {
                let message = transport_error_message(id, date.as_str(), error.as_str());
                emit(&mut self.logs, message, LogLevel::Error, Ghost(base), Ghost(Seq::empty()), Ghost(marks));
                self.workers.set(w, Worker { next: worker.next + 1, in_flight: false, ..worker });
                proof {
                    assert(Seq::<Line>::empty().push(lines[0]) =~= lines);
                    assert(self.run().workers =~= after.workers);
                }
                None
            },
            QueryOutcome::Response { status, body } => {
                match classify_response(*status, body.as_str()) {
                    Classification::NoMatch => {
                        let checked: usize = worker.checked + 1;
                        self.state.checked_count = self.state.checked_count + 1;
                        self.workers.set(
                            w,
                            Worker { next: worker.next + 1, checked, in_flight: false, ..worker },
                        );
                        if checked % 10 == 0 {
                            let message = progress_message(id, checked as u64, date.as_str());
                            emit(
                                &mut self.logs,
                                message,
                                LogLevel::Info,
                                Ghost(base),
                                Ghost(Seq::empty()),
                                Ghost(marks),
                            );
                            proof {
                                assert(Seq::<Line>::empty().push(lines[0]) =~= lines);
                            }
                        }
                        proof {
                            assert(self.run().workers =~= after.workers);
                        }
                        None
                    },
                    Classification::ProtocolError(_) => {
                        let message = http_error_message(
                            id,
                            *status as u64,
                            self.identifier.as_str(),
                            date.as_str(),
                        );
                        emit(
                            &mut self.logs,
                            message,
                            LogLevel::Error,
                            Ghost(base),
                            Ghost(Seq::empty()),
                            Ghost(marks),
                        );
                        self.state.found_count = self.state.found_count + 1;
                        self.state.stop_requested = true;
                        self.workers.set(
                            w,
                            Worker {
                                in_flight: false,
                                status: WorkerStatus::Stopped(StopReason::LocalProtocolError),
                                ..worker
                            },
                        );
                        proof {
                            assert(Seq::<Line>::empty().push(lines[0]) =~= lines);
                            assert(self.run().workers =~= after.workers);
                        }
                        Some(
                            SaveRequest {
                                thread_id: worker.id,
                                status: *status,
                                filename: result_filename(
                                    self.identifier.as_str(),
                                    date.as_str(),
                                    *status,
                                ),
                            },
                        )
                    },
                    Classification::Match => {
                        let ghost mut sofar: Seq<Line> = Seq::empty();
                        let message = record_found_message(
                            id,
                            self.identifier.as_str(),
                            date.as_str(),
                        );
                        emit(&mut self.logs, message, LogLevel::Success, Ghost(base), Ghost(sofar), Ghost(marks));
                        proof {
                            sofar = sofar.push(lines[0]);
                        }
                        emit(
                            &mut self.logs,
                            String::from_str(DOUBLE_RULE),
                            LogLevel::Success,
                            Ghost(base),
                            Ghost(sofar),
                            Ghost(marks),
                        );
                        proof {
                            sofar = sofar.push(lines[1]);
                        }
                        emit(
                            &mut self.logs,
                            String::from_str(FOUND_BANNER),
                            LogLevel::Success,
                            Ghost(base),
                            Ghost(sofar),
                            Ghost(marks),
                        );
                        proof {
                            sofar = sofar.push(lines[2]);
                        }
                        emit(
                            &mut self.logs,
                            String::from_str(DOUBLE_RULE),
                            LogLevel::Success,
                            Ghost(base),
                            Ghost(sofar),
                            Ghost(marks),
                        );
                        proof {
                            sofar = sofar.push(lines[3]);
                            assert(sofar =~= lines);
                        }
                        self.state.found_count = self.state.found_count + 1;
                        self.state.stop_requested = true;
                        self.workers.set(
                            w,
                            Worker {
                                in_flight: false,
                                status: WorkerStatus::Stopped(StopReason::LocalMatch),
                                ..worker
                            },
                        );
                        proof {
                            assert(self.run().workers =~= after.workers);
                        }
                        Some(
                            SaveRequest {
                                thread_id: worker.id,
                                status: *status,
                                filename: result_filename(
                                    self.identifier.as_str(),
                                    date.as_str(),
                                    *status,
                                ),
                            },
                        )
                    },
                    Classification::TransportError => None,
                }
            },
        }
    }

    /// Reports what came of keeping an answer: `failure` is what went wrong
    /// in writing the file, if anything did. The search goes on as it was.
    pub fn record_save(&mut self, request: &SaveRequest, body: &str, failure: Option<&str>)
        ensures
            final(self).lines() == appended_all(
                old(self).lines(),
                save_lines(
                    request.thread_id,
                    request.status,
                    request.filename@,
                    body@,
                    match failure {
                        Some(error) => Some(error@),
                        None => None,
                    },
                ),
            ),
            stamped(
                old(self).stamps(),
                final(self).stamps(),
                if request.status != STATUS_OK {
                    4
                } else {
                    3
                },
            ),
            final(self).same_but_log(old(self)),
    {
        let ghost base = self.logs@;
        let ghost marks = self.logs.stamps();
        proof {
            lemma_stamped_none(marks, marks);
        }
        let ghost lines = save_lines(
            request.thread_id,
            request.status,
            request.filename@,
            body@,
            match failure {
                Some(error) => Some(error@),
                None => None,
            },
        );
        let ghost mut sofar: Seq<Line> = Seq::empty();
        let id: u64 = request.thread_id as u64;
        match failure {
            None => {
                let message = saved_message(id, request.filename.as_str());
                emit(&mut self.logs, message, LogLevel::Success, Ghost(base), Ghost(sofar), Ghost(marks));
            },
            Some(error) => {
                let message = save_failed_message(id, error);
                emit(&mut self.logs, message, LogLevel::Error, Ghost(base), Ghost(sofar), Ghost(marks));
            },
        }
        proof {
            sofar = sofar.push(lines[0]);
        }
        let shown = preview(body);
        if request.status != STATUS_OK {
            let message = error_preview_message(shown.as_str());
            emit(&mut self.logs, message, LogLevel::Error, Ghost(base), Ghost(sofar), Ghost(marks));
            proof {
                sofar = sofar.push(lines[1]);
            }
            let message = stopping_on_error_message(id, request.status as u64);
            emit(&mut self.logs, message, LogLevel::Warning, Ghost(base), Ghost(sofar), Ghost(marks));
            proof {
                sofar = sofar.push(lines[2]);
            }
            emit(
                &mut self.logs,
                stopped_message(id),
                LogLevel::Warning,
                Ghost(base),
                Ghost(sofar),
                Ghost(marks),
            );
            proof {
                sofar = sofar.push(lines[3]);
                assert(sofar =~= lines);
            }
        } else {
            let message = match_preview_message(shown.as_str());
            emit(&mut self.logs, message, LogLevel::Success, Ghost(base), Ghost(sofar), Ghost(marks));
            proof {
                sofar = sofar.push(lines[1]);
            }
            emit(
                &mut self.logs,
                stopped_message(id),
                LogLevel::Warning,
                Ghost(base),
                Ghost(sofar),
                Ghost(marks),
            );
            proof {
                sofar = sofar.push(lines[2]);
                assert(sofar =~= lines);
            }
        }
    }

    /// Looks whether every worker has stopped, and if so ends the search.
    pub fn finish(&mut self) -> (done: bool)
        ensures
            done == old(self).run().all_stopped(),
            final(self).run() == old(self).run().finish(),
            final(self).lines() == old(self).lines(),
            final(self).stamps() == old(self).stamps(),
            final(self).identifier() == old(self).identifier(),
            final(self).status() == old(self).status(),
            old(self).wf() ==> final(self).wf(),
    {
        let mut i: usize = 0;
        while i < self.workers.len()
            invariant
                0 <= i <= self.workers.len(),
                *self == *old(self),
                forall|j: int| 0 <= j < i ==> (#[trigger] self.workers@[j]).status is Stopped,
            decreases self.workers.len() - i,
        {
            match self.workers[i].status {
                WorkerStatus::Iterating => {
                    assert(!(self.run().workers[i as int].status is Stopped));
                    return false;
                },
                WorkerStatus::Stopped(_) => {},
            }
            i = i + 1;
        }
        self.state.running = false;
        true
    }

    /// How the search ended, or would end if it ended now.
    pub fn outcome(&self) -> (r: crate::run::RunResult)
        ensures
            r == self.run().state.result(),
    {
        self.state.outcome()
    }

    /// Works out the status from the state: a record found, ready, or how
    /// many days of how many are checked.
    pub fn refresh_status(&mut self)
        ensures
            final(self).status() == status_of(old(self).run().state),
            final(self).run() == old(self).run(),
            final(self).lines() == old(self).lines(),
            final(self).stamps() == old(self).stamps(),
            final(self).identifier() == old(self).identifier(),
    {
        if !self.state.running && self.state.found_count > 0 {
            self.status_text = String::from_str(STATUS_FOUND);
        } else if !self.state.running {
            self.status_text = String::from_str(STATUS_READY);
        } else {
            self.status_text =
            status_running_message(self.state.checked_count as u64, self.state.total_count as u64);
        }
    }

    /// The status as it was last worked out.
    pub fn status_text(&self) -> (text: &str)
        ensures
            text@ == self.status(),
    {
        self.status_text.as_str()
    }

    /// How the status is to be shown: as found once something was found,
    /// else as running while the search is under way.
    pub fn tone(&self) -> (t: StatusTone)
        ensures
            t == tone_of(self.run().state),
    {
        if self.state.found_count > 0 {
            StatusTone::Found
        } else if self.state.running {
            StatusTone::Running
        } else {
            StatusTone::Idle
        }
    }

    /// Whether progress is to be shown: while the search is under way, and
    /// after it if any day was checked.
    pub fn progress_shown(&self) -> (shown: bool)
        ensures
            shown == (self.run().state.running || (self.run().state.total_count > 0
                && self.run().state.checked_count > 0)),
    {
        self.state.running || (self.state.total_count > 0 && self.state.checked_count > 0)
    }

    /// Cancels the search: raises the stop signal and reports it. Where no
    /// search is under way, or the signal is raised already, nothing
    /// changes.
    pub fn stop_checking(&mut self)
        ensures
            final(self).run() == old(self).run().cancel(),
            final(self).lines() == if old(self).run().can_cancel() {
                appended(
                    old(self).lines(),
                    (Line { level: LogLevel::Warning, message: CANCEL_NOTICE@ }),
                )
            } else {
                old(self).lines()
            },
            if old(self).run().can_cancel() {
                stamped(old(self).stamps(), final(self).stamps(), 1)
            } else {
                final(self).stamps() == old(self).stamps()
            },
            final(self).identifier() == old(self).identifier(),
            final(self).status() == old(self).status(),
            old(self).wf() ==> final(self).wf(),
    {
        if self.state.running && !self.state.stop_requested {
            self.state.stop_requested = true;
            self.logs.report(String::from_str(CANCEL_NOTICE), LogLevel::Warning);
        }
    }
}

} // verus!
