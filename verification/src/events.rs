//! The event log: what the search reports while it runs.
//!
//! Entries are kept in the order in which they were appended. The log is
//! bounded: once it holds more than [`CAPACITY`] entries, the oldest
//! [`EVICTED`] are dropped in one block.

use vstd::prelude::*;
use crate::date::DAY_PATTERN;

verus! {

/// Number of entries above which the oldest block is dropped.
pub const CAPACITY: usize = 1000;

/// Number of entries dropped at once.
pub const EVICTED: usize = 100;

/// How an event is to be read.
#[derive(Clone, Copy, Debug, PartialEq, Eq, Structural)]
pub enum LogLevel {
    Info,
    Success,
    Error,
    Warning,
}

/// One reported event.
#[derive(Clone, Debug)]
pub struct LogEntry {
    /// Local time at which the event was reported.
    pub timestamp: String,
    /// What happened.
    pub message: String,
    /// How it is to be read.
    pub level: LogLevel,
}

/// An event without the time at which it was reported.
pub struct Line {
    pub level: LogLevel,
    pub message: Seq<char>,
}

impl LogEntry {
    /// The event, whenever it was reported.
    pub open spec fn line(&self) -> Line {
        Line { level: self.level, message: self.message@ }
    }
}

/// The events of `entries`, in order.
pub open spec fn lines_of(entries: Seq<LogEntry>) -> Seq<Line> {
    Seq::new(entries.len(), |i: int| entries[i].line())
}

/// The times at which the events of `entries` were reported, in order.
pub open spec fn stamps_of(entries: Seq<LogEntry>) -> Seq<Seq<char>> {
    Seq::new(entries.len(), |i: int| entries[i].timestamp@)
}

/// The log after one more item: the item comes last, and where the log
/// outgrows its capacity the oldest block leaves. What is held besides
/// stays as it is and in its order.
pub open spec fn appended<T>(log: Seq<T>, item: T) -> Seq<T> {
    let grown = log.push(item);
    if grown.len() > CAPACITY {
        grown.skip(EVICTED as int)
    } else {
        grown
    }
}

/// The log after the items of `items`, appended one after the other.
pub open spec fn appended_all<T>(log: Seq<T>, items: Seq<T>) -> Seq<T>
    decreases items.len(),
{
    if items.len() == 0 {
        log
    } else {
        appended(appended_all(log, items.drop_last()), items.last())
    }
}

/// Whether the times `after` are the times `before` with `count` more
/// appended, whatever the clock gave for them.
pub open spec fn stamped(before: Seq<Seq<char>>, after: Seq<Seq<char>>, count: nat) -> bool {
    exists|fresh: Seq<Seq<char>>|
        fresh.len() == count && after == #[trigger] appended_all(before, fresh)
}

/// Appending one item more is appending the items before it, then it.
pub proof fn lemma_appended_all_push<T>(log: Seq<T>, items: Seq<T>, item: T)
    ensures
        appended_all(log, items.push(item)) == appended(appended_all(log, items), item),
{
    assert(items.push(item).drop_last() =~= items);
}

/// Appending two runs of items in turn is appending them joined.
pub proof fn lemma_appended_all_concat<T>(log: Seq<T>, a: Seq<T>, b: Seq<T>)
    ensures
        appended_all(log, a + b) == appended_all(appended_all(log, a), b),
    decreases b.len(),
{
    if b.len() == 0 {
        assert(a + b =~= a);
    } else {
        assert((a + b).drop_last() =~= a + b.drop_last());
        lemma_appended_all_concat(log, a, b.drop_last());
    }
}

/// Where nothing is reported, the times held stay as they are.
pub proof fn lemma_stamped_none(before: Seq<Seq<char>>, after: Seq<Seq<char>>)
    ensures
        stamped(before, after, 0) <==> after == before,
{
    let none = Seq::<Seq<char>>::empty();
    assert(appended_all(before, none) == before);
    if stamped(before, after, 0) {
        let fresh = choose|fresh: Seq<Seq<char>>|
            fresh.len() == 0 && after == #[trigger] appended_all(before, fresh);
        assert(fresh =~= none);
    }
}

/// Where one event is reported, the times held are the old ones with one
/// time appended.
pub proof fn lemma_stamped_one(before: Seq<Seq<char>>, stamp: Seq<char>)
    ensures
        stamped(before, appended(before, stamp), 1),
{
    let one = Seq::<Seq<char>>::empty().push(stamp);
    lemma_appended_all_push(before, Seq::<Seq<char>>::empty(), stamp);
    assert(appended(before, stamp) == appended_all(before, one));
}

/// Where one event is reported, the times held afterwards are the old
/// ones with the time of that event appended: the last one afterwards.
pub proof fn lemma_stamped_once(before: Seq<Seq<char>>, after: Seq<Seq<char>>)
    requires
        stamped(before, after, 1),
    ensures
        after == appended(before, after.last()),
{
    let fresh = choose|fresh: Seq<Seq<char>>|
        fresh.len() == 1 && after == #[trigger] appended_all(before, fresh);
    assert(fresh.drop_last() =~= Seq::<Seq<char>>::empty());
    assert(appended_all(before, fresh.drop_last()) == before);
    assert(after == appended(before, fresh.last()));
}

/// While the log has room, the times held before stay where they are and
/// the new ones follow them.
pub proof fn lemma_stamped_within(before: Seq<Seq<char>>, after: Seq<Seq<char>>, count: nat)
    requires
        stamped(before, after, count),
        before.len() + count <= CAPACITY,
    ensures
        after.len() == before.len() + count,
        after.take(before.len() as int) == before,
{
    let fresh = choose|fresh: Seq<Seq<char>>|
        fresh.len() == count && after == #[trigger] appended_all(before, fresh);
    lemma_appended_all_within(before, fresh);
    assert(after.take(before.len() as int) =~= before);
}

/// While the log has room, appending is joining.
pub proof fn lemma_appended_all_within<T>(log: Seq<T>, items: Seq<T>)
    requires
        log.len() + items.len() <= CAPACITY,
    ensures
        appended_all(log, items) == log + items,
    decreases items.len(),
{
    if items.len() == 0 {
        assert(log + items =~= log);
    } else {
        lemma_appended_all_within(log, items.drop_last());
        assert((log + items.drop_last()).push(items.last()) =~= log + items);
    }
}

/// Reporting some events and then some more is reporting them all.
pub proof fn lemma_stamped_chain(
    a: Seq<Seq<char>>,
    b: Seq<Seq<char>>,
    c: Seq<Seq<char>>,
    m: nat,
    n: nat,
)
    requires
        stamped(a, b, m),
        stamped(b, c, n),
    ensures
        stamped(a, c, m + n),
{
    let first = choose|fresh: Seq<Seq<char>>|
        fresh.len() == m && b == #[trigger] appended_all(a, fresh);
    let second = choose|fresh: Seq<Seq<char>>|
        fresh.len() == n && c == #[trigger] appended_all(b, fresh);
    lemma_appended_all_concat(a, first, second);
    assert(c == appended_all(a, first + second));
}

/// Pattern of the time that stands before every event.
pub const STAMP_PATTERN: &'static str = "%Y-%m-%d %H:%M:%S";

/// Reads the local clock (`chrono::Local::now`) and writes it under the
/// pattern above or that of a day (`DateTime::format`). Nothing is claimed of the
/// text: it depends on the time and on the machine's time zone. Other
/// patterns are excluded, since `chrono` panics on one that it cannot read.
#[verifier::external_body]
pub(crate) fn clock_text(pattern: &str) -> (r: String)
    requires
        pattern@ == STAMP_PATTERN@ || pattern@ == DAY_PATTERN@,
{
    chrono::Local::now().format(pattern).to_string()
}

/// The bounded, append-only log of events.
pub struct EventLog {
    entries: Vec<LogEntry>,
}

impl View for EventLog {
    type V = Seq<Line>;

    closed spec fn view(&self) -> Seq<Line> {
        lines_of(self.entries@)
    }
}

impl EventLog {
    /// The times at which the events held were reported, oldest first.
    pub closed spec fn stamps(&self) -> Seq<Seq<char>> {
        stamps_of(self.entries@)
    }

    /// Every event held has its time.
    pub proof fn lemma_one_time_each(&self)
        ensures
            self.stamps().len() == self@.len(),
    {
    }

    /// A log without entries.
    pub fn new() -> (log: EventLog)
        ensures
            log@ == Seq::<Line>::empty(),
            log.stamps() == Seq::<Seq<char>>::empty(),
    {
        let log = EventLog { entries: Vec::new() };
        assert(log@ =~= Seq::<Line>::empty());
        assert(log.stamps() =~= Seq::<Seq<char>>::empty());
        log
    }

    /// Appends `entry` as it is; where the log then holds more than
    /// [`CAPACITY`] entries, drops the oldest [`EVICTED`]. The entries that
    /// stay are the ones held before, each with the time it was given.
    pub fn append(&mut self, entry: LogEntry)
        ensures
            final(self)@ == appended(old(self)@, entry.line()),
            final(self).stamps() == appended(old(self).stamps(), entry.timestamp@),
    {
        let ghost before = self.entries@;
        self.entries.push(entry);
        assert(lines_of(self.entries@) =~= lines_of(before).push(entry.line()));
        assert(stamps_of(self.entries@) =~= stamps_of(before).push(entry.timestamp@));
        if self.entries.len() > CAPACITY {
            let ghost grown = self.entries@;
            let kept = self.entries.split_off(EVICTED);
            self.entries = kept;
            assert(lines_of(self.entries@) =~= lines_of(grown).skip(EVICTED as int));
            assert(stamps_of(self.entries@) =~= stamps_of(grown).skip(EVICTED as int));
        }
    }

    /// Stamps `message` with the local time and appends it. The time of
    /// the new entry is what the clock gives; the entries held before keep
    /// theirs.
    pub fn report(&mut self, message: String, level: LogLevel)
        ensures
            final(self)@ == appended(old(self)@, (Line { level, message: message@ })),
            stamped(old(self).stamps(), final(self).stamps(), 1),
    {
        let entry = LogEntry { timestamp: clock_text(STAMP_PATTERN), message, level };
        proof {
            lemma_stamped_one(self.stamps(), entry.timestamp@);
        }
        self.append(entry);
    }

    /// Drops every entry.
    pub fn clear(&mut self)
        ensures
            final(self)@ == Seq::<Line>::empty(),
            final(self).stamps() == Seq::<Seq<char>>::empty(),
    {
        self.entries.clear();
        assert(lines_of(self.entries@) =~= Seq::<Line>::empty());
        assert(stamps_of(self.entries@) =~= Seq::<Seq<char>>::empty());
    }

    /// Number of entries held.
    pub fn len(&self) -> (n: usize)
        ensures
            n == self@.len(),
            n == self.stamps().len(),
    {
        self.entries.len()
    }

    /// The entries held, oldest first, each with the time at which it was
    /// reported.
    pub fn entries(&self) -> (r: &Vec<LogEntry>)
        ensures
            lines_of(r@) == self@,
            stamps_of(r@) == self.stamps(),
            r@.len() == self@.len(),
            forall|i: int|
                0 <= i < r@.len() ==> (#[trigger] r@[i]).line() == self@[i] && r@[i].timestamp@
                    == self.stamps()[i],
    {
        &self.entries
    }
}

} // verus!
