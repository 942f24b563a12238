//! The wording of every event that the search reports.

use vstd::prelude::*;
use crate::text::{decimal, decimal_text};

verus! {

/// Reported where the identifier is empty.
pub const EMPTY_IDENTIFIER: &'static str = "Please enter a vehicle registration number";

/// Reported where the first day is not a date.
pub const INVALID_START: &'static str = "Invalid start date format. Use YYYY-MM-DD";

/// Reported where the last day is not a date.
pub const INVALID_END: &'static str = "Invalid end date format. Use YYYY-MM-DD";

/// Reported where the first day lies after the last.
pub const INVERTED_RANGE: &'static str = "Starting date must be before ending date";

/// Reported where no worker was asked for.
pub const NO_WORKERS: &'static str = "Number of threads must be at least 1";

/// Says where answers are kept.
pub const RESULTS_NOTICE: &'static str = "Results will be saved to: \"vehicle_results\"";

/// Says that the first record found ends the search.
pub const STOP_NOTICE: &'static str = "Program will STOP automatically when a record is found!";

/// A line of dashes.
pub const RULE: &'static str =
    "--------------------------------------------------------------------------------";

/// A line of equal signs.
pub const DOUBLE_RULE: &'static str =
    "================================================================================";

/// Announces that a record was found.
pub const FOUND_BANNER: &'static str = "RECORD FOUND! STOPPING ALL THREADS";

/// Reported where the search is cancelled.
pub const CANCEL_NOTICE: &'static str = "Stopping all threads...";

/// Status after a search that found a record.
pub const STATUS_FOUND: &'static str = "RECORD FOUND!";

/// Status while no search runs.
pub const STATUS_READY: &'static str = "Ready";

/// Names the identifier that is searched for.
pub open spec fn plan_vehicle_text(identifier: Seq<char>) -> Seq<char> {
    "Starting check for vehicle: "@ + identifier
}

/// Writes [`plan_vehicle_text`].
pub fn plan_vehicle_message(identifier: &str) -> (m: String)
    ensures
        m@ == plan_vehicle_text(identifier@),
{
    let mut m = String::new();
    m.append("Starting check for vehicle: ");
    m.append(identifier);
    assert(m@ =~= plan_vehicle_text(identifier@));
    m
}

/// Names the first and the last day, as they were entered.
pub open spec fn plan_range_text(start: Seq<char>, end: Seq<char>) -> Seq<char> {
    "Date range: "@ + start + " to "@ + end
}

/// Writes [`plan_range_text`].
pub fn plan_range_message(start: &str, end: &str) -> (m: String)
    ensures
        m@ == plan_range_text(start@, end@),
{
    let mut m = String::new();
    m.append("Date range: ");
    m.append(start);
    m.append(" to ");
    m.append(end);
    assert(m@ =~= plan_range_text(start@, end@));
    m
}

/// Says how many days the range holds.
pub open spec fn plan_total_text(total: nat) -> Seq<char> {
    "Total days to check: "@ + decimal_text(total)
}

/// Writes [`plan_total_text`].
pub fn plan_total_message(total: u64) -> (m: String)
    ensures
        m@ == plan_total_text(total as nat),
{
    let mut m = String::new();
    m.append("Total days to check: ");
    m.append(decimal(total).as_str());
    assert(m@ =~= plan_total_text(total as nat));
    m
}

/// Says how many workers share the range, and how many days each has at least.
pub open spec fn plan_threads_text(workers: nat, each: nat) -> Seq<char> {
    "Threads: "@ + decimal_text(workers) + ", ~"@ + decimal_text(each) + " days per thread"@
}

/// Writes [`plan_threads_text`].
pub fn plan_threads_message(workers: u64, each: u64) -> (m: String)
    ensures
        m@ == plan_threads_text(workers as nat, each as nat),
{
    let mut m = String::new();
    m.append("Threads: ");
    m.append(decimal(workers).as_str());
    m.append(", ~");
    m.append(decimal(each).as_str());
    m.append(" days per thread");
    assert(m@ =~= plan_threads_text(workers as nat, each as nat));
    m
}

/// Names the days of one worker.
pub open spec fn worker_span_text(id: nat, start: Seq<char>, end: Seq<char>) -> Seq<char> {
    "Thread "@ + decimal_text(id) + ": "@ + start + " to "@ + end
}

/// Writes [`worker_span_text`].
pub fn worker_span_message(id: u64, start: &str, end: &str) -> (m: String)
    ensures
        m@ == worker_span_text(id as nat, start@, end@),
{
    let mut m = String::new();
    m.append("Thread ");
    m.append(decimal(id).as_str());
    m.append(": ");
    m.append(start);
    m.append(" to ");
    m.append(end);
    assert(m@ =~= worker_span_text(id as nat, start@, end@));
    m
}

/// Reports an answer with a status other than 200.
pub open spec fn http_error_text(id: nat, status: nat, identifier: Seq<char>, date: Seq<char>) -> Seq<char> {
    "Thread "@ + decimal_text(id) + ": HTTP "@ + decimal_text(status) + " Error - Vehicle: "@ + identifier + ", Date: "@ + date
}

/// Writes [`http_error_text`].
pub fn http_error_message(id: u64, status: u64, identifier: &str, date: &str) -> (m: String)
    ensures
        m@ == http_error_text(id as nat, status as nat, identifier@, date@),
{
    let mut m = String::new();
    m.append("Thread ");
    m.append(decimal(id).as_str());
    m.append(": HTTP ");
    m.append(decimal(status).as_str());
    m.append(" Error - Vehicle: ");
    m.append(identifier);
    m.append(", Date: ");
    m.append(date);
    assert(m@ =~= http_error_text(id as nat, status as nat, identifier@, date@));
    m
}

/// Reports the file in which an answer was kept.
pub open spec fn saved_text(id: nat, filename: Seq<char>) -> Seq<char> {
    "Thread "@ + decimal_text(id) + ": Response saved to: "@ + filename
}

/// Writes [`saved_text`].
pub fn saved_message(id: u64, filename: &str) -> (m: String)
    ensures
        m@ == saved_text(id as nat, filename@),
{
    let mut m = String::new();
    m.append("Thread ");
    m.append(decimal(id).as_str());
    m.append(": Response saved to: ");
    m.append(filename);
    assert(m@ =~= saved_text(id as nat, filename@));
    m
}

/// Reports that an answer could not be kept.
pub open spec fn save_failed_text(id: nat, error: Seq<char>) -> Seq<char> {
    "Thread "@ + decimal_text(id) + ": Error saving file - "@ + error
}

/// Writes [`save_failed_text`].
pub fn save_failed_message(id: u64, error: &str) -> (m: String)
    ensures
        m@ == save_failed_text(id as nat, error@),
{
    let mut m = String::new();
    m.append("Thread ");
    m.append(decimal(id).as_str());
    m.append(": Error saving file - ");
    m.append(error);
    assert(m@ =~= save_failed_text(id as nat, error@));
    m
}

/// Shows the start of an answer with a status other than 200.
pub open spec fn error_preview_text(preview: Seq<char>) -> Seq<char> {
    "Response preview: "@ + preview + "..."@
}

/// Writes [`error_preview_text`].
pub fn error_preview_message(preview: &str) -> (m: String)
    ensures
        m@ == error_preview_text(preview@),
{
    let mut m = String::new();
    m.append("Response preview: ");
    m.append(preview);
    m.append("...");
    assert(m@ =~= error_preview_text(preview@));
    m
}

/// Shows the start of the record found.
pub open spec fn match_preview_text(preview: Seq<char>) -> Seq<char> {
    "Preview: "@ + preview + "..."@
}

/// Writes [`match_preview_text`].
pub fn match_preview_message(preview: &str) -> (m: String)
    ensures
        m@ == match_preview_text(preview@),
{
    let mut m = String::new();
    m.append("Preview: ");
    m.append(preview);
    m.append("...");
    assert(m@ =~= match_preview_text(preview@));
    m
}

/// Says that a status other than 200 ends the search.
pub open spec fn stopping_on_error_text(id: nat, status: nat) -> Seq<char> {
    "Thread "@ + decimal_text(id) + ": Stopping all threads due to HTTP "@ + decimal_text(status) + " error"@
}

/// Writes [`stopping_on_error_text`].
pub fn stopping_on_error_message(id: u64, status: u64) -> (m: String)
    ensures
        m@ == stopping_on_error_text(id as nat, status as nat),
{
    let mut m = String::new();
    m.append("Thread ");
    m.append(decimal(id).as_str());
    m.append(": Stopping all threads due to HTTP ");
    m.append(decimal(status).as_str());
    m.append(" error");
    assert(m@ =~= stopping_on_error_text(id as nat, status as nat));
    m
}

/// Reports how far a worker has come.
pub open spec fn progress_text(id: nat, checked: nat, date: Seq<char>) -> Seq<char> {
    "Thread "@ + decimal_text(id) + ": Checked "@ + decimal_text(checked) + " dates, currently at "@ + date + " - No records"@
}

/// Writes [`progress_text`].
pub fn progress_message(id: u64, checked: u64, date: &str) -> (m: String)
    ensures
        m@ == progress_text(id as nat, checked as nat, date@),
{
    let mut m = String::new();
    m.append("Thread ");
    m.append(decimal(id).as_str());
    m.append(": Checked ");
    m.append(decimal(checked).as_str());
    m.append(" dates, currently at ");
    m.append(date);
    m.append(" - No records");
    assert(m@ =~= progress_text(id as nat, checked as nat, date@));
    m
}

/// Announces the day for which the registry holds a record.
pub open spec fn record_found_text(id: nat, identifier: Seq<char>, date: Seq<char>) -> Seq<char> {
    "Thread "@ + decimal_text(id) + ": *** RECORD FOUND *** - Vehicle: "@ + identifier + ", Date: "@ + date
}

/// Writes [`record_found_text`].
pub fn record_found_message(id: u64, identifier: &str, date: &str) -> (m: String)
    ensures
        m@ == record_found_text(id as nat, identifier@, date@),
{
    let mut m = String::new();
    m.append("Thread ");
    m.append(decimal(id).as_str());
    m.append(": *** RECORD FOUND *** - Vehicle: ");
    m.append(identifier);
    m.append(", Date: ");
    m.append(date);
    assert(m@ =~= record_found_text(id as nat, identifier@, date@));
    m
}

/// Reports a request that got no answer.
pub open spec fn transport_error_text(id: nat, date: Seq<char>, error: Seq<char>) -> Seq<char> {
    "Thread "@ + decimal_text(id) + ": Error checking "@ + date + " - "@ + error
}

/// Writes [`transport_error_text`].
pub fn transport_error_message(id: u64, date: &str, error: &str) -> (m: String)
    ensures
        m@ == transport_error_text(id as nat, date@, error@),
{
    let mut m = String::new();
    m.append("Thread ");
    m.append(decimal(id).as_str());
    m.append(": Error checking ");
    m.append(date);
    m.append(" - ");
    m.append(error);
    assert(m@ =~= transport_error_text(id as nat, date@, error@));
    m
}

/// Says that a worker stopped because a record was found.
pub open spec fn stopped_text(id: nat) -> Seq<char> {
    "Thread "@ + decimal_text(id) + ": Stopped due to record found"@
}

/// Writes [`stopped_text`].
pub fn stopped_message(id: u64) -> (m: String)
    ensures
        m@ == stopped_text(id as nat),
{
    let mut m = String::new();
    m.append("Thread ");
    m.append(decimal(id).as_str());
    m.append(": Stopped due to record found");
    assert(m@ =~= stopped_text(id as nat));
    m
}

/// Says that a worker is done, and how many days it checked.
pub open spec fn completed_text(id: nat, checked: nat) -> Seq<char> {
    "Thread "@ + decimal_text(id) + ": Completed - Checked "@ + decimal_text(checked) + " dates"@
}

/// Writes [`completed_text`].
pub fn completed_message(id: u64, checked: u64) -> (m: String)
    ensures
        m@ == completed_text(id as nat, checked as nat),
{
    let mut m = String::new();
    m.append("Thread ");
    m.append(decimal(id).as_str());
    m.append(": Completed - Checked ");
    m.append(decimal(checked).as_str());
    m.append(" dates");
    assert(m@ =~= completed_text(id as nat, checked as nat));
    m
}

/// Status while a search runs: days checked and days in all.
pub open spec fn status_running_text(checked: nat, total: nat) -> Seq<char> {
    "Running... ("@ + decimal_text(checked) + "/"@ + decimal_text(total) + ")"@
}

/// Writes [`status_running_text`].
pub fn status_running_message(checked: u64, total: u64) -> (m: String)
    ensures
        m@ == status_running_text(checked as nat, total as nat),
{
    let mut m = String::new();
    m.append("Running... (");
    m.append(decimal(checked).as_str());
    m.append("/");
    m.append(decimal(total).as_str());
    m.append(")");
    assert(m@ =~= status_running_text(checked as nat, total as nat));
    m
}

} // verus!
