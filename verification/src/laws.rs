//! What holds of every search, proved of the state machine in [`crate::run`].

use vstd::prelude::*;
use vstd::arithmetic::div_mod::{lemma_fundamental_div_mod, lemma_small_mod, lemma_basic_div};
use crate::classify::Classification;
use crate::date::{MAX_DAY, MIN_DAY};
use crate::partition::{
    lemma_offset_ends,
    lemma_offset_grows,
    lemma_offset_step,
    share_len,
    share_offset,
};
use crate::run::{
    lemma_tally_bound,
    lemma_tally_update,
    measure,
    tally,
    Event,
    Measure,
    Run,
    RunResult,
    StopReason,
    Worker,
    WorkerStatus,
};

verus! {

/// Every share that gets a worker holds at least one day.
pub proof fn lemma_share_has_days(total: int, k: int, i: int)
    requires
        k >= 1,
        total >= 1,
        0 <= i < k,
        i < total,
    ensures
        share_len(total, k, i) >= 1,
{
    if total < k {
        lemma_small_mod(total as nat, k as nat);
        lemma_basic_div(total, k);
    } else {
        lemma_fundamental_div_mod(total, k);
        assert(total / k >= 1) by (nonlinear_arith)
            requires
                total >= k,
                k >= 1,
                total == k * (total / k) + total % k,
                0 <= total % k < k,
        ;
    }
}

/// With more workers than days, the shares from the number of days on are
/// empty.
pub proof fn lemma_share_without_days(total: int, k: int, i: int)
    requires
        total >= 1,
        total <= i < k,
    ensures
        share_len(total, k, i) == 0,
{
    lemma_small_mod(total as nat, k as nat);
    lemma_basic_div(total, k);
}

/// The workers of a search that opens lie inside the range, one behind the
/// other, and hold nothing yet.
proof fn lemma_opened_prefix(first: int, total: int, k: int, n: int)
    requires
        k >= 1,
        total >= 1,
        0 <= n <= k,
        n <= total,
        MIN_DAY <= first,
        first + total - 1 <= MAX_DAY,
    ensures
        forall|i: int| 0 <= i < n ==> (#[trigger] Worker::assigned(first, total, k, i)).wf(),
        tally(Seq::new(n as nat, |i: int| Worker::assigned(first, total, k, i)), Measure::Span)
            == share_offset(total, k, n),
        tally(Seq::new(n as nat, |i: int| Worker::assigned(first, total, k, i)), Measure::Checked)
            == 0,
        tally(Seq::new(n as nat, |i: int| Worker::assigned(first, total, k, i)), Measure::Found)
            == 0,
    decreases n,
{
    let ws = Seq::new(n as nat, |i: int| Worker::assigned(first, total, k, i));
    lemma_offset_ends(total, k);
    if n > 0 {
        lemma_opened_prefix(first, total, k, n - 1);
        let before = Seq::new((n - 1) as nat, |i: int| Worker::assigned(first, total, k, i));
        assert(ws.drop_last() =~= before);
        lemma_offset_step(total, k, n - 1);
        lemma_share_has_days(total, k, n - 1);
        lemma_offset_grows(total, k, 0, n - 1);
        lemma_offset_grows(total, k, n, k);
        let w = Worker::assigned(first, total, k, n - 1);
        assert(w.wf());
        assert(ws.last() == w);
    }
}

/// A search that opens over a range of the calendar satisfies what every
/// run satisfies.
pub proof fn lemma_opened_wf(first: int, total: int, k: int)
    requires
        k >= 1,
        total >= 1,
        MIN_DAY <= first,
        first + total - 1 <= MAX_DAY,
    ensures
        Run::opened(first, total, k).wf(),
        Run::opened(first, total, k).state.running,
        !Run::opened(first, total, k).state.stop_requested,
{
    let n = if k < total {
        k
    } else {
        total
    };
    lemma_opened_prefix(first, total, k, n);
    lemma_offset_ends(total, k);
    lemma_offset_grows(total, k, n, k);
    let run = Run::opened(first, total, k);
    assert forall|i: int| 0 <= i < run.workers.len() implies (#[trigger] run.workers[i]).wf() by {
        assert(run.workers[i] == Worker::assigned(first, total, k, i));
    }
}

/// The counters of a run never exceed the number of days in the range.
pub proof fn lemma_counters_bounded(run: Run)
    requires
        run.wf(),
    ensures
        run.state.checked_count <= run.state.total_count,
        run.state.found_count <= run.state.total_count,
        run.state.found_count <= run.workers.len(),
        run.workers.len() <= run.state.total_count,
{
    assert forall|i: int| 0 <= i < run.workers.len() implies measure(
        #[trigger] run.workers[i],
        Measure::Checked,
    ) <= measure(run.workers[i], Measure::Span) by {
        assert(run.workers[i].wf());
    }
    lemma_tally_bound(run.workers, Measure::Checked, Measure::Span);
    assert forall|i: int| 0 <= i < run.workers.len() implies measure(
        #[trigger] run.workers[i],
        Measure::Found,
    ) <= measure(run.workers[i], Measure::Span) by {
        assert(run.workers[i].wf());
    }
    lemma_tally_bound(run.workers, Measure::Found, Measure::Span);
    lemma_found_at_most_workers(run.workers);
    lemma_workers_at_most_days(run.workers);
}

proof fn lemma_found_at_most_workers(ws: Seq<Worker>)
    ensures
        tally(ws, Measure::Found) <= ws.len(),
    decreases ws.len(),
{
    if ws.len() > 0 {
        lemma_found_at_most_workers(ws.drop_last());
    }
}

proof fn lemma_workers_at_most_days(ws: Seq<Worker>)
    requires
        forall|i: int| 0 <= i < ws.len() ==> (#[trigger] ws[i]).wf(),
    ensures
        ws.len() <= tally(ws, Measure::Span),
    decreases ws.len(),
{
    if ws.len() > 0 {
        assert forall|i: int| 0 <= i < ws.drop_last().len() implies (#[trigger] ws.drop_last()[i]).wf() by {
            assert(ws.drop_last()[i] == ws[i]);
        }
        lemma_workers_at_most_days(ws.drop_last());
        assert(ws.last().wf());
    }
}

/// Asking what to do next keeps a run well formed.
pub proof fn lemma_poll_keeps_wf(run: Run, w: int)
    requires
        run.wf(),
    ensures
        run.poll(w).wf(),
        run.poll(w).state == run.state,
        run.poll(w).workers.len() == run.workers.len(),
{
    let after = run.poll(w);
    if after != run {
        let worker = run.workers[w];
        let moved = after.workers[w];
        assert(worker.wf());
        assert(after.workers =~= run.workers.update(w, moved));
        lemma_tally_update(run.workers, w, moved, Measure::Checked);
        lemma_tally_update(run.workers, w, moved, Measure::Found);
        lemma_tally_update(run.workers, w, moved, Measure::Span);
        assert forall|i: int| 0 <= i < after.workers.len() implies (#[trigger] after.workers[i]).wf() by {
            if i != w {
                assert(run.workers[i].wf());
            }
        }
        if !run.state.running {
            assert(run.workers[w].status is Stopped);
        }
    }
}

/// Reporting an outcome keeps a run well formed.
pub proof fn lemma_answer_keeps_wf(run: Run, w: int, c: Classification)
    requires
        run.wf(),
    ensures
        run.answer(w, c).wf(),
        run.answer(w, c).workers.len() == run.workers.len(),
{
    let after = run.answer(w, c);
    if run.has(w) && run.workers[w].in_flight {
        let worker = run.workers[w];
        let moved = after.workers[w];
        assert(worker.wf());
        lemma_counters_bounded(run);
        assert(after.workers =~= run.workers.update(w, moved));
        lemma_tally_update(run.workers, w, moved, Measure::Checked);
        lemma_tally_update(run.workers, w, moved, Measure::Found);
        lemma_tally_update(run.workers, w, moved, Measure::Span);
        assert(moved.wf());
        assert forall|i: int| 0 <= i < after.workers.len() implies (#[trigger] after.workers[i]).wf() by {
            if i != w {
                assert(run.workers[i].wf());
            }
        }
        if !run.state.running {
            assert(run.workers[w].status is Stopped);
        }
    }
}

/// Cancelling keeps a run well formed.
pub proof fn lemma_cancel_keeps_wf(run: Run)
    requires
        run.wf(),
    ensures
        run.cancel().wf(),
{
}

/// Looking whether the search is over keeps a run well formed.
pub proof fn lemma_finish_keeps_wf(run: Run)
    requires
        run.wf(),
    ensures
        run.finish().wf(),
{
}

/// Whatever happens, a run stays well formed: the counters remain the
/// counts over the workers.
pub proof fn lemma_replay_keeps_wf(run: Run, events: Seq<Event>)
    requires
        run.wf(),
    ensures
        run.replay(events).wf(),
        run.replay(events).workers.len() == run.workers.len(),
        run.replay(events).state.total_count == run.state.total_count,
    decreases events.len(),
{
    if events.len() > 0 {
        lemma_replay_keeps_wf(run, events.drop_last());
        let before = run.replay(events.drop_last());
        match events.last() {
            Event::Poll(w) => lemma_poll_keeps_wf(before, w),
            Event::Answer(w, c) => lemma_answer_keeps_wf(before, w, c),
            Event::Cancel => lemma_cancel_keeps_wf(before),
            Event::Finish => lemma_finish_keeps_wf(before),
        }
    }
}

/// A report counts once: a day without a record adds one to the days
/// checked, a record or a protocol error adds one to what was found, and
/// nothing else changes either counter.
pub proof fn lemma_answer_counts(run: Run, w: int, c: Classification)
    requires
        run.wf(),
    ensures
        run.answer(w, c).state.checked_count == run.state.checked_count + if run.has(w)
            && run.workers[w].in_flight && c == Classification::NoMatch {
            1int
        } else {
            0int
        },
        run.answer(w, c).state.found_count == run.state.found_count + if run.has(w)
            && run.workers[w].in_flight && (c == Classification::Match || c
             is ProtocolError) {
            1int
        } else {
            0int
        },
{
    lemma_counters_bounded(run);
}

/// No event makes a counter smaller, lowers the stop signal, or brings a
/// worker that has stopped back to work.
pub proof fn lemma_step_grows(run: Run, e: Event)
    requires
        run.wf(),
    ensures
        run.step(e).state.checked_count >= run.state.checked_count,
        run.step(e).state.found_count >= run.state.found_count,
        run.state.stop_requested ==> run.step(e).state.stop_requested,
        forall|i: int|
            run.has(i) && run.workers[i].status is Stopped ==> (#[trigger] run.step(e).workers[i])
                == run.workers[i],
{
    lemma_counters_bounded(run);
    match e {
        Event::Answer(w, c) => {
            if run.has(w) {
                assert(run.workers[w].wf());
            }
        },
        _ => {},
    }
}

/// During a search the counters never decrease.
pub proof fn lemma_counters_never_decrease(run: Run, events: Seq<Event>)
    requires
        run.wf(),
    ensures
        run.replay(events).state.checked_count >= run.state.checked_count,
        run.replay(events).state.found_count >= run.state.found_count,
    decreases events.len(),
{
    if events.len() > 0 {
        lemma_counters_never_decrease(run, events.drop_last());
        lemma_replay_keeps_wf(run, events.drop_last());
        lemma_step_grows(run.replay(events.drop_last()), events.last());
    }
}

/// A worker that reports a record or a protocol error raises the stop
/// signal and stops.
pub proof fn lemma_found_raises_stop(run: Run, w: int, c: Classification)
    requires
        run.wf(),
        run.has(w),
        run.workers[w].in_flight,
        c == Classification::Match || c is ProtocolError,
    ensures
        run.answer(w, c).state.stop_requested,
        run.answer(w, c).workers[w].found(),
        run.answer(w, c).state.result() == RunResult::Found,
{
    lemma_counters_bounded(run);
}

/// Once the stop signal is raised, a worker that asks what to do next is
/// told to stop, unless a request of its own is still in flight.
pub proof fn lemma_stop_halts(run: Run, w: int)
    requires
        run.wf(),
        run.has(w),
        run.state.stop_requested,
        !run.workers[w].in_flight,
    ensures
        run.query_day(w) is None,
        run.poll(w).workers[w].status is Stopped,
        run.workers[w].status is Iterating ==> run.poll(w).workers[w].status
            == WorkerStatus::Stopped(StopReason::GlobalStopSignal),
{
}

/// Once the stop signal is raised it stays raised, and no worker sends
/// another request: only a request that was in flight already may still be
/// answered, which moves its worker on by one day at most.
pub proof fn lemma_stop_propagates(run: Run, events: Seq<Event>)
    requires
        run.wf(),
        run.state.stop_requested,
    ensures
        run.replay(events).state.stop_requested,
        forall|i: int|
            run.has(i) && (#[trigger] run.replay(events).workers[i]).in_flight
                ==> run.workers[i].in_flight && run.replay(events).workers[i].next
                == run.workers[i].next,
        forall|i: int|
            run.has(i) ==> (#[trigger] run.replay(events).workers[i]).next <= run.workers[i].next
                + if run.workers[i].in_flight {
                1int
            } else {
                0int
            },
        forall|i: int|
            run.has(i) && !run.workers[i].in_flight ==> (#[trigger] run.replay(events).workers[i]).next
                == run.workers[i].next,
    decreases events.len(),
{
    if events.len() > 0 {
        lemma_stop_propagates(run, events.drop_last());
        lemma_replay_keeps_wf(run, events.drop_last());
        let before = run.replay(events.drop_last());
        let after = run.replay(events);
        assert(after == before.step(events.last()));
        assert forall|i: int| run.has(i) implies ((#[trigger] after.workers[i]).in_flight
            ==> before.workers[i].in_flight) && after.workers[i].next <= before.workers[i].next
            + if before.workers[i].in_flight {
            1int
        } else {
            0int
        } && (after.workers[i].next != before.workers[i].next ==> before.workers[i].in_flight
            && !after.workers[i].in_flight) by {
            assert(before.workers[i].wf());
        }
    }
}

/// Cancelling twice is cancelling once.
pub proof fn lemma_cancel_idempotent(run: Run)
    ensures
        run.cancel().cancel() == run.cancel(),
{
}

/// Cancelling a search that is over, or one that was never started, changes
/// nothing.
pub proof fn lemma_cancel_after_finish(run: Run)
    requires
        !run.state.running,
    ensures
        run.cancel() == run,
{
}

/// Whether one of the events cancels the search.
pub open spec fn cancels(events: Seq<Event>) -> bool {
    exists|i: int| 0 <= i < events.len() && events[i] is Cancel
}

/// A search that nobody cancels does not end as aborted: the stop signal is
/// raised only by a worker that found something.
pub proof fn lemma_abort_needs_cancel(run: Run, events: Seq<Event>)
    requires
        run.wf(),
        !run.state.stop_requested,
        !cancels(events),
    ensures
        run.replay(events).state.stop_requested ==> run.replay(events).state.found_count > 0,
        run.replay(events).state.result() != RunResult::Aborted,
    decreases events.len(),
{
    if events.len() > 0 {
        let n = events.len() - 1;
        assert(!(events[n] is Cancel));
        assert forall|i: int| 0 <= i < events.drop_last().len() implies !(events.drop_last()[i]
             is Cancel) by {
            assert(events.drop_last()[i] == events[i]);
        }
        lemma_abort_needs_cancel(run, events.drop_last());
        lemma_replay_keeps_wf(run, events.drop_last());
        let before = run.replay(events.drop_last());
        lemma_counters_bounded(before);
        match events.last() {
            Event::Answer(w, c) => {
                lemma_answer_counts(before, w, c);
            },
            _ => {},
        }
    }
}

/// A search ends as found exactly if a worker met a record or a protocol
/// error, and a search in which every answer was "no record" and that was
/// not cancelled ends as not found.
pub proof fn lemma_result_cases(run: Run)
    requires
        run.wf(),
    ensures
        run.state.result() == RunResult::Found <==> exists|i: int|
            run.has(i) && (#[trigger] run.workers[i]).found(),
        run.state.result() == RunResult::Aborted ==> run.state.stop_requested,
        run.state.result() == RunResult::NotFound <==> run.state.found_count == 0
            && !run.state.stop_requested,
{
    lemma_found_witness(run.workers);
}

proof fn lemma_found_witness(ws: Seq<Worker>)
    ensures
        tally(ws, Measure::Found) >= 0,
        tally(ws, Measure::Found) > 0 <==> exists|i: int|
            0 <= i < ws.len() && (#[trigger] ws[i]).found(),
    decreases ws.len(),
{
    if ws.len() > 0 {
        lemma_found_witness(ws.drop_last());
        if tally(ws, Measure::Found) > 0 {
            if ws.last().found() {
                assert(ws[ws.len() - 1].found());
            } else {
                let i = choose|i: int| 0 <= i < ws.drop_last().len() && (#[trigger] ws.drop_last()[i]).found();
                assert(ws[i] == ws.drop_last()[i]);
            }
        }
        if exists|i: int| 0 <= i < ws.len() && (#[trigger] ws[i]).found() {
            let i = choose|i: int| 0 <= i < ws.len() && (#[trigger] ws[i]).found();
            if i < ws.len() - 1 {
                assert(ws.drop_last()[i] == ws[i]);
            }
        }
    }
}

/// Whether nothing but days without a record is reported, and nobody
/// cancels.
pub open spec fn fruitless(events: Seq<Event>) -> bool {
    forall|i: int|
        0 <= i < events.len() ==> match #[trigger] events[i] {
            Event::Answer(_, c) => c == Classification::NoMatch,
            Event::Cancel => false,
            _ => true,
        }
}

/// A run in which so far every day asked about held no record: every day
/// that a worker has passed is counted, and a worker has stopped only at
/// the end of its share.
spec fn on_course(run: Run) -> bool {
    &&& run.wf()
    &&& !run.state.stop_requested
    &&& run.state.found_count == 0
    &&& tally(run.workers, Measure::Span) == run.state.total_count
    &&& forall|i: int|
        0 <= i < run.workers.len() ==> {
            let w = #[trigger] run.workers[i];
            &&& w.checked == w.next - w.first
            &&& w.status is Stopped ==> w.status == WorkerStatus::Stopped(
                StopReason::RangeExhausted,
            ) && w.next == w.last + 1
        }
}

proof fn lemma_step_on_course(run: Run, e: Event)
    requires
        on_course(run),
        match e {
            Event::Answer(_, c) => c == Classification::NoMatch,
            Event::Cancel => false,
            _ => true,
        },
    ensures
        on_course(run.step(e)),
{
    let after = run.step(e);
    lemma_counters_bounded(run);
    match e {
        Event::Poll(w) => {
            lemma_poll_keeps_wf(run, w);
            if after != run {
                assert(run.workers[w].wf());
                lemma_tally_update(run.workers, w, after.workers[w], Measure::Span);
                assert(after.workers =~= run.workers.update(w, after.workers[w]));
            }
        },
        Event::Answer(w, c) => {
            lemma_answer_keeps_wf(run, w, c);
            if after != run {
                assert(run.workers[w].wf());
                lemma_tally_update(run.workers, w, after.workers[w], Measure::Span);
                assert(after.workers =~= run.workers.update(w, after.workers[w]));
            }
        },
        Event::Cancel => {},
        Event::Finish => {},
    }
}

proof fn lemma_replay_on_course(run: Run, events: Seq<Event>)
    requires
        on_course(run),
        fruitless(events),
    ensures
        on_course(run.replay(events)),
    decreases events.len(),
{
    if events.len() > 0 {
        assert forall|i: int| 0 <= i < events.drop_last().len() implies match #[trigger] events.drop_last()[i] {
            Event::Answer(_, c) => c == Classification::NoMatch,
            Event::Cancel => false,
            _ => true,
        } by {
            assert(events.drop_last()[i] == events[i]);
        }
        lemma_replay_on_course(run, events.drop_last());
        let last = events[events.len() - 1];
        lemma_step_on_course(run.replay(events.drop_last()), last);
    }
}

/// A search in which no day holds a record and that nobody cancels ends as
/// not found, with every day of the range counted as checked.
pub proof fn lemma_fruitless_search(first: int, total: int, k: int, events: Seq<Event>)
    requires
        k >= 1,
        total >= 1,
        MIN_DAY <= first,
        first + total - 1 <= MAX_DAY,
        fruitless(events),
        Run::opened(first, total, k).replay(events).all_stopped(),
    ensures
        Run::opened(first, total, k).replay(events).state.checked_count == total,
        Run::opened(first, total, k).replay(events).state.found_count == 0,
        Run::opened(first, total, k).replay(events).state.result() == RunResult::NotFound,
{
    let start = Run::opened(first, total, k);
    let n = if k < total {
        k
    } else {
        total
    };
    lemma_opened_wf(first, total, k);
    lemma_opened_prefix(first, total, k, n);
    lemma_offset_ends(total, k);
    if total < k {
        lemma_small_mod(total as nat, k as nat);
        lemma_basic_div(total, k);
        assert(total * 0 == 0) by (nonlinear_arith);
    }
    assert(share_offset(total, k, n) == total);
    assert forall|i: int| 0 <= i < start.workers.len() implies {
        let w = #[trigger] start.workers[i];
        w.checked == w.next - w.first && w.status is Iterating
    } by {
        assert(start.workers[i] == Worker::assigned(first, total, k, i));
        assert(start.workers[i].wf());
    }
    lemma_replay_on_course(start, events);
    lemma_replay_keeps_wf(start, events);
    let end = start.replay(events);
    assert forall|i: int| 0 <= i < end.workers.len() implies measure(
        #[trigger] end.workers[i],
        Measure::Checked,
    ) == measure(end.workers[i], Measure::Span) by {
        assert(end.workers[i].status is Stopped);
    }
    lemma_tally_bound(end.workers, Measure::Checked, Measure::Span);
    lemma_tally_bound(end.workers, Measure::Span, Measure::Checked);
}

} // verus!
