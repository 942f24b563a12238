use vehicle_checker::checker::{SaveRequest, SearchForm, StatusTone, VehicleChecker, WorkerAction};
use vehicle_checker::classify::QueryOutcome;
use vehicle_checker::date::{ConfigError, Date};
use vehicle_checker::events::LogLevel;
use vehicle_checker::request::build_request_body;
use vehicle_checker::run::{RunResult, SearchState, StopReason, WorkerStatus};

const EMPTY_PAGE: &str = "<html>No record found.\nPlease contact Excise office.</html>";

fn form(vehicle: &str, start: &str, end: &str, workers: usize) -> SearchForm {
    SearchForm {
        vehicle_no: vehicle.to_string(),
        start_date: start.to_string(),
        end_date: end.to_string(),
        num_threads: workers,
    }
}

fn no_match() -> QueryOutcome {
    QueryOutcome::Response { status: 200, body: EMPTY_PAGE.to_string() }
}

fn record() -> QueryOutcome {
    QueryOutcome::Response { status: 200, body: "Owner:\tA. Khan\nModel: 2019".to_string() }
}

fn messages(c: &VehicleChecker) -> Vec<String> {
    c.logs().entries().iter().map(|e| e.message.clone()).collect()
}

fn levels(c: &VehicleChecker) -> Vec<LogLevel> {
    c.logs().entries().iter().map(|e| e.level).collect()
}

fn queried_day(action: WorkerAction) -> String {
    match action {
        WorkerAction::Query { day, .. } => Date::from_days(day).unwrap().text(),
        WorkerAction::Halt(reason) => panic!("halted: {:?}", reason),
    }
}

fn started(workers: usize) -> VehicleChecker {
    let mut c = VehicleChecker::new();
    let n = c.start_checking(&form("abc-123", "2024-01-01", "2024-01-10", workers)).unwrap();
    assert_eq!(n, workers.min(10));
    c
}

#[test]
fn new_checker_is_idle() {
    let c = VehicleChecker::new();
    assert_eq!(
        c.snapshot(),
        SearchState {
            running: false,
            stop_requested: false,
            found_count: 0,
            checked_count: 0,
            total_count: 0
        }
    );
    assert_eq!(c.worker_count(), 0);
    assert_eq!(c.logs().len(), 0);
    assert_eq!(c.status_text(), "Ready");
    assert_eq!(c.tone(), StatusTone::Idle);
    assert!(!c.progress_shown());
    assert_eq!(c.outcome(), RunResult::NotFound);
    assert_eq!(c.search_key(), "");
    let d = VehicleChecker::default();
    assert_eq!(d.snapshot(), c.snapshot());
}

#[test]
fn new_form_proposes_the_defaults() {
    let f = SearchForm::new();
    assert_eq!(f.vehicle_no, "");
    assert_eq!(f.start_date, "2000-01-01");
    assert_eq!(f.num_threads, 6);
    assert!(Date::parse(&f.end_date).is_some());
    let d = SearchForm::default();
    assert_eq!(d.start_date, "2000-01-01");
    assert_eq!(d.num_threads, 6);
}

#[test]
fn start_reports_the_plan() {
    let c = started(3);
    assert_eq!(
        c.snapshot(),
        SearchState {
            running: true,
            stop_requested: false,
            found_count: 0,
            checked_count: 0,
            total_count: 10
        }
    );
    assert_eq!(c.search_key(), "ABC-123");
    assert_eq!(
        messages(&c),
        vec![
            "Starting check for vehicle: ABC-123".to_string(),
            "Date range: 2024-01-01 to 2024-01-10".to_string(),
            "Total days to check: 10".to_string(),
            "Threads: 3, ~3 days per thread".to_string(),
            "Results will be saved to: \"vehicle_results\"".to_string(),
            "Program will STOP automatically when a record is found!".to_string(),
            "-".repeat(80),
            "Thread 1: 2024-01-01 to 2024-01-04".to_string(),
            "Thread 2: 2024-01-05 to 2024-01-07".to_string(),
            "Thread 3: 2024-01-08 to 2024-01-10".to_string(),
            "-".repeat(80),
        ]
    );
    let mut expected = vec![LogLevel::Info; 11];
    expected[5] = LogLevel::Warning;
    assert_eq!(levels(&c), expected);
}

#[test]
fn start_assigns_one_worker_to_each_share() {
    let c = started(3);
    assert_eq!(c.worker_count(), 3);
    let day = |t: &str| Date::parse(t).unwrap().days();
    let w = c.worker(1).unwrap();
    assert_eq!(w.id, 2);
    assert_eq!(w.first, day("2024-01-05"));
    assert_eq!(w.last, day("2024-01-07"));
    assert_eq!(w.next, day("2024-01-05"));
    assert_eq!(w.checked, 0);
    assert!(!w.in_flight);
    assert_eq!(w.status, WorkerStatus::Iterating);
    assert_eq!(c.worker(3), None);
}

#[test]
fn start_trims_and_raises_the_entries() {
    let mut c = VehicleChecker::new();
    let n = c.start_checking(&form("  lea-19-4321\t", " 2024-03-01 ", "2024-03-02\n", 6));
    assert_eq!(n, Ok(2));
    assert_eq!(c.search_key(), "LEA-19-4321");
    assert_eq!(messages(&c)[0], "Starting check for vehicle: LEA-19-4321");
    assert_eq!(messages(&c)[1], "Date range: 2024-03-01 to 2024-03-02");
    assert_eq!(messages(&c)[3], "Threads: 6, ~0 days per thread");
    assert_eq!(c.worker_count(), 2);
}

#[test]
fn start_without_workers_is_a_configuration_error() {
    let mut c = VehicleChecker::new();
    let r = c.start_checking(&form("ABC-123", "2024-01-01", "2024-01-10", 0));
    assert_eq!(r, Err(ConfigError::InvalidWorkerCount));
    assert_eq!(messages(&c), vec!["Number of threads must be at least 1".to_string()]);
    assert_eq!(levels(&c), vec![LogLevel::Error]);
    assert!(!c.snapshot().running);
    assert_eq!(c.worker_count(), 0);
}

#[test]
fn start_without_identifier_is_a_configuration_error() {
    let mut c = VehicleChecker::new();
    let r = c.start_checking(&form("   ", "2024-01-01", "2024-01-10", 3));
    assert_eq!(r, Err(ConfigError::EmptyIdentifier));
    assert_eq!(messages(&c), vec!["Please enter a vehicle registration number".to_string()]);
    assert!(!c.snapshot().running);
}

#[test]
fn start_with_a_bad_first_day_is_a_configuration_error() {
    let mut c = VehicleChecker::new();
    let r = c.start_checking(&form("ABC", "01/01/2024", "2024-01-10", 3));
    assert_eq!(r, Err(ConfigError::InvalidStartDate));
    assert_eq!(messages(&c), vec!["Invalid start date format. Use YYYY-MM-DD".to_string()]);
}

#[test]
fn start_with_a_bad_last_day_is_a_configuration_error() {
    let mut c = VehicleChecker::new();
    let r = c.start_checking(&form("ABC", "2024-01-01", "2024-02-30", 3));
    assert_eq!(r, Err(ConfigError::InvalidEndDate));
    assert_eq!(messages(&c), vec!["Invalid end date format. Use YYYY-MM-DD".to_string()]);
}

#[test]
fn start_with_an_inverted_range_is_a_configuration_error() {
    let mut c = VehicleChecker::new();
    let r = c.start_checking(&form("ABC", "2024-01-10", "2024-01-01", 3));
    assert_eq!(r, Err(ConfigError::InvertedRange));
    assert_eq!(messages(&c), vec!["Starting date must be before ending date".to_string()]);
    assert_eq!(levels(&c), vec![LogLevel::Error]);
}

#[test]
fn a_refused_start_leaves_a_running_search_alone() {
    let mut c = started(3);
    let before = c.snapshot();
    let r = c.start_checking(&form("", "2024-01-01", "2024-01-10", 3));
    assert_eq!(r, Err(ConfigError::EmptyIdentifier));
    assert_eq!(c.snapshot(), before);
    assert_eq!(c.worker_count(), 3);
    assert_eq!(c.search_key(), "ABC-123");
}

#[test]
fn single_day_search() {
    let mut c = VehicleChecker::new();
    assert_eq!(c.start_checking(&form("ABC", "2024-01-01", "2024-01-01", 4)), Ok(1));
    assert_eq!(c.snapshot().total_count, 1);
    assert_eq!(queried_day(c.next_action(0)), "2024-01-01");
    assert!(matches!(c.next_action(1), WorkerAction::Halt(StopReason::RangeExhausted)));
}

#[test]
fn a_query_carries_the_form_for_its_day() {
    let mut c = started(3);
    match c.next_action(2) {
        WorkerAction::Query { day, body } => {
            assert_eq!(day, Date::parse("2024-01-08").unwrap().days());
            assert_eq!(body, build_request_body("ABC-123", "2024-01-08"));
        }
        WorkerAction::Halt(reason) => panic!("halted: {:?}", reason),
    }
    assert!(c.worker(2).unwrap().in_flight);
}

#[test]
fn all_days_without_record_end_as_not_found() {
    let mut c = started(3);
    let mut asked: Vec<String> = Vec::new();
    for w in 0..3 {
        loop {
            match c.next_action(w) {
                WorkerAction::Query { day, .. } => {
                    asked.push(Date::from_days(day).unwrap().text());
                    assert!(c.record_outcome(w, &no_match()).is_none());
                }
                WorkerAction::Halt(reason) => {
                    assert_eq!(reason, StopReason::RangeExhausted);
                    break;
                }
            }
        }
    }
    assert_eq!(asked.len(), 10);
    assert_eq!(asked[0], "2024-01-01");
    assert_eq!(asked[9], "2024-01-10");
    assert!(c.finish());
    assert_eq!(
        c.snapshot(),
        SearchState {
            running: false,
            stop_requested: false,
            found_count: 0,
            checked_count: 10,
            total_count: 10
        }
    );
    assert_eq!(c.outcome(), RunResult::NotFound);
    let log = messages(&c);
    assert_eq!(
        &log[11..],
        &[
            "Thread 1: Completed - Checked 4 dates".to_string(),
            "Thread 2: Completed - Checked 3 dates".to_string(),
            "Thread 3: Completed - Checked 3 dates".to_string(),
        ]
    );
    assert_eq!(&levels(&c)[11..], &[LogLevel::Warning; 3]);
    c.refresh_status();
    assert_eq!(c.status_text(), "Ready");
    assert_eq!(c.tone(), StatusTone::Idle);
    assert!(c.progress_shown());
}

#[test]
fn a_record_ends_the_search_as_found() {
    let mut c = started(3);
    assert_eq!(queried_day(c.next_action(0)), "2024-01-01");
    assert!(c.record_outcome(0, &no_match()).is_none());
    assert_eq!(queried_day(c.next_action(1)), "2024-01-05");
    let save: SaveRequest = c.record_outcome(1, &record()).expect("an answer to keep");
    assert_eq!(save.thread_id, 2);
    assert_eq!(save.status, 200);
    assert_eq!(save.filename, "ABC-123_2024-01-05.html");
    let s = c.snapshot();
    assert!(s.running);
    assert!(s.stop_requested);
    assert_eq!(s.found_count, 1);
    assert_eq!(s.checked_count, 1);
    assert_eq!(c.worker(1).unwrap().status, WorkerStatus::Stopped(StopReason::LocalMatch));
    assert_eq!(c.worker(1).unwrap().next, Date::parse("2024-01-05").unwrap().days());

    assert!(matches!(c.next_action(1), WorkerAction::Halt(StopReason::LocalMatch)));
    assert!(matches!(c.next_action(0), WorkerAction::Halt(StopReason::GlobalStopSignal)));
    assert!(matches!(c.next_action(2), WorkerAction::Halt(StopReason::GlobalStopSignal)));
    assert_eq!(c.worker(0).unwrap().next, Date::parse("2024-01-02").unwrap().days());
    assert_eq!(c.worker(2).unwrap().next, Date::parse("2024-01-08").unwrap().days());
    assert!(c.finish());
    assert_eq!(c.outcome(), RunResult::Found);
    assert_eq!(c.snapshot().found_count, 1);
    assert!(!c.snapshot().running);

    let log = messages(&c);
    assert_eq!(
        &log[11..],
        &[
            "Thread 2: *** RECORD FOUND *** - Vehicle: ABC-123, Date: 2024-01-05".to_string(),
            "=".repeat(80),
            "RECORD FOUND! STOPPING ALL THREADS".to_string(),
            "=".repeat(80),
            "Thread 1: Stopped due to record found".to_string(),
            "Thread 3: Stopped due to record found".to_string(),
        ]
    );
    assert_eq!(&levels(&c)[11..15], &[LogLevel::Success; 4]);
    c.refresh_status();
    assert_eq!(c.status_text(), "RECORD FOUND!");
    assert_eq!(c.tone(), StatusTone::Found);
}

#[test]
fn a_request_in_flight_is_answered_before_its_worker_stops() {
    let mut c = started(3);
    assert_eq!(queried_day(c.next_action(0)), "2024-01-01");
    assert_eq!(queried_day(c.next_action(1)), "2024-01-05");
    assert!(c.record_outcome(1, &record()).is_some());
    assert_eq!(queried_day(c.next_action(0)), "2024-01-01");
    assert!(c.record_outcome(0, &no_match()).is_none());
    assert_eq!(c.snapshot().checked_count, 1);
    assert!(matches!(c.next_action(0), WorkerAction::Halt(StopReason::GlobalStopSignal)));
    assert!(matches!(c.next_action(0), WorkerAction::Halt(StopReason::GlobalStopSignal)));
    assert_eq!(c.worker(0).unwrap().next, Date::parse("2024-01-02").unwrap().days());
}

#[test]
fn a_protocol_error_ends_the_search() {
    let mut c = started(3);
    assert_eq!(queried_day(c.next_action(2)), "2024-01-08");
    let outcome = QueryOutcome::Response { status: 503, body: EMPTY_PAGE.to_string() };
    let save = c.record_outcome(2, &outcome).expect("an answer to keep");
    assert_eq!(save.thread_id, 3);
    assert_eq!(save.status, 503);
    assert_eq!(save.filename, "HTTP503_ABC-123_2024-01-08.html");
    assert!(c.snapshot().stop_requested);
    assert_eq!(c.snapshot().found_count, 1);
    assert_eq!(c.snapshot().checked_count, 0);
    assert_eq!(c.worker(2).unwrap().status, WorkerStatus::Stopped(StopReason::LocalProtocolError));
    assert_eq!(
        messages(&c)[11],
        "Thread 3: HTTP 503 Error - Vehicle: ABC-123, Date: 2024-01-08"
    );
    assert_eq!(levels(&c)[11], LogLevel::Error);
    assert!(matches!(c.next_action(0), WorkerAction::Halt(StopReason::GlobalStopSignal)));
    assert_eq!(c.outcome(), RunResult::Found);
}

#[test]
fn a_failed_request_is_reported_and_passed_over() {
    let mut c = started(3);
    assert_eq!(queried_day(c.next_action(0)), "2024-01-01");
    let failed = QueryOutcome::Failed { error: "connection refused".to_string() };
    assert!(c.record_outcome(0, &failed).is_none());
    let s = c.snapshot();
    assert!(!s.stop_requested);
    assert_eq!(s.checked_count, 0);
    assert_eq!(s.found_count, 0);
    assert_eq!(messages(&c)[11], "Thread 1: Error checking 2024-01-01 - connection refused");
    assert_eq!(levels(&c)[11], LogLevel::Error);
    assert_eq!(queried_day(c.next_action(0)), "2024-01-02");
}

#[test]
fn every_tenth_day_without_record_is_reported() {
    let mut c = VehicleChecker::new();
    assert_eq!(c.start_checking(&form("ABC", "2024-01-01", "2024-01-25", 1)), Ok(1));
    let plan = c.logs().len();
    for _ in 0..25 {
        assert!(matches!(c.next_action(0), WorkerAction::Query { .. }));
        c.record_outcome(0, &no_match());
    }
    assert_eq!(
        &messages(&c)[plan..],
        &[
            "Thread 1: Checked 10 dates, currently at 2024-01-10 - No records".to_string(),
            "Thread 1: Checked 20 dates, currently at 2024-01-20 - No records".to_string(),
        ]
    );
    assert_eq!(c.snapshot().checked_count, 25);
    c.refresh_status();
    assert_eq!(c.status_text(), "Running... (25/25)");
    assert_eq!(c.tone(), StatusTone::Running);
}

#[test]
fn an_unexpected_report_changes_nothing() {
    let mut c = started(3);
    let before = c.snapshot();
    let lines = c.logs().len();
    assert!(c.record_outcome(0, &record()).is_none());
    assert!(c.record_outcome(7, &record()).is_none());
    assert_eq!(c.snapshot(), before);
    assert_eq!(c.logs().len(), lines);
    assert_eq!(c.worker(0).unwrap().status, WorkerStatus::Iterating);
}

#[test]
fn counters_never_decrease() {
    let mut c = started(2);
    let mut last = c.snapshot();
    let outcomes = [
        no_match(),
        QueryOutcome::Failed { error: "timeout".to_string() },
        no_match(),
        record(),
        no_match(),
    ];
    for (i, outcome) in outcomes.iter().enumerate() {
        let w = i % 2;
        c.next_action(w);
        c.record_outcome(w, outcome);
        let now = c.snapshot();
        assert!(now.checked_count >= last.checked_count);
        assert!(now.found_count >= last.found_count);
        assert!(now.stop_requested || !last.stop_requested);
        last = now;
    }
    assert_eq!(last.checked_count, 2);
    assert_eq!(last.found_count, 1);
}

#[test]
fn keeping_a_record_is_reported() {
    let mut c = started(3);
    c.next_action(1);
    let save = c.record_outcome(1, &record()).unwrap();
    let before = c.logs().len();
    let state = c.snapshot();
    c.record_save(&save, "Owner:\tA. Khan\nModel: 2019", None);
    assert_eq!(
        &messages(&c)[before..],
        &[
            "Thread 2: Response saved to: ABC-123_2024-01-05.html".to_string(),
            "Preview: Owner: A. Khan Model: 2019...".to_string(),
            "Thread 2: Stopped due to record found".to_string(),
        ]
    );
    assert_eq!(
        &levels(&c)[before..],
        &[LogLevel::Success, LogLevel::Success, LogLevel::Warning]
    );
    assert_eq!(c.snapshot(), state);
}

#[test]
fn failing_to_keep_an_answer_does_not_change_the_search() {
    let mut c = started(3);
    c.next_action(0);
    let outcome = QueryOutcome::Response { status: 404, body: "Not\nFound".to_string() };
    let save = c.record_outcome(0, &outcome).unwrap();
    let before = c.logs().len();
    let state = c.snapshot();
    c.record_save(&save, "Not\nFound", Some("disk full"));
    assert_eq!(
        &messages(&c)[before..],
        &[
            "Thread 1: Error saving file - disk full".to_string(),
            "Response preview: Not Found...".to_string(),
            "Thread 1: Stopping all threads due to HTTP 404 error".to_string(),
            "Thread 1: Stopped due to record found".to_string(),
        ]
    );
    assert_eq!(
        &levels(&c)[before..],
        &[LogLevel::Error, LogLevel::Error, LogLevel::Warning, LogLevel::Warning]
    );
    assert_eq!(c.snapshot(), state);
    assert_eq!(c.outcome(), RunResult::Found);
}

#[test]
fn cancelling_stops_every_worker_and_ends_as_aborted() {
    let mut c = started(3);
    c.next_action(0);
    c.record_outcome(0, &no_match());
    c.stop_checking();
    assert!(c.snapshot().stop_requested);
    assert!(c.snapshot().running);
    assert_eq!(messages(&c)[11], "Stopping all threads...");
    assert_eq!(levels(&c)[11], LogLevel::Warning);
    for w in 0..3 {
        assert!(matches!(c.next_action(w), WorkerAction::Halt(StopReason::GlobalStopSignal)));
    }
    assert_eq!(
        &messages(&c)[12..],
        &[
            "Thread 1: Completed - Checked 1 dates".to_string(),
            "Thread 2: Completed - Checked 0 dates".to_string(),
            "Thread 3: Completed - Checked 0 dates".to_string(),
        ]
    );
    assert!(c.finish());
    assert_eq!(c.outcome(), RunResult::Aborted);
}

#[test]
fn cancelling_twice_is_cancelling_once() {
    let mut c = started(3);
    c.stop_checking();
    let state = c.snapshot();
    let lines = messages(&c);
    c.stop_checking();
    c.stop_checking();
    assert_eq!(c.snapshot(), state);
    assert_eq!(messages(&c), lines);
}

#[test]
fn cancelling_after_the_search_is_over_changes_nothing() {
    let mut c = VehicleChecker::new();
    assert_eq!(c.start_checking(&form("ABC", "2024-01-01", "2024-01-01", 1)), Ok(1));
    c.next_action(0);
    c.record_outcome(0, &no_match());
    c.next_action(0);
    assert!(c.finish());
    let state = c.snapshot();
    let lines = c.logs().len();
    c.stop_checking();
    assert_eq!(c.snapshot(), state);
    assert_eq!(c.logs().len(), lines);
    assert_eq!(c.outcome(), RunResult::NotFound);
}

#[test]
fn cancelling_before_any_search_changes_nothing() {
    let mut c = VehicleChecker::new();
    c.stop_checking();
    assert!(!c.snapshot().stop_requested);
    assert_eq!(c.logs().len(), 0);
}

#[test]
fn finish_waits_for_every_worker() {
    let mut c = started(2);
    assert!(!c.finish());
    assert!(c.snapshot().running);
    c.stop_checking();
    c.next_action(0);
    assert!(!c.finish());
    c.next_action(1);
    assert!(c.finish());
    assert!(!c.snapshot().running);
}

#[test]
fn a_new_search_starts_afresh() {
    let mut c = started(3);
    c.next_action(1);
    c.record_outcome(1, &record());
    for w in 0..3 {
        c.next_action(w);
    }
    assert!(c.finish());
    assert_eq!(c.start_checking(&form("xyz", "2024-02-01", "2024-02-02", 1)), Ok(1));
    assert_eq!(
        c.snapshot(),
        SearchState {
            running: true,
            stop_requested: false,
            found_count: 0,
            checked_count: 0,
            total_count: 2
        }
    );
    assert_eq!(c.search_key(), "XYZ");
    assert_eq!(c.worker(0).unwrap().status, WorkerStatus::Iterating);
    assert_eq!(queried_day(c.next_action(0)), "2024-02-01");
}

#[test]
fn log_and_clear_logs() {
    let mut c = VehicleChecker::new();
    c.log("one".to_string(), LogLevel::Info);
    c.log("two".to_string(), LogLevel::Error);
    assert_eq!(messages(&c), vec!["one".to_string(), "two".to_string()]);
    assert_eq!(levels(&c), vec![LogLevel::Info, LogLevel::Error]);
    c.clear_logs();
    assert_eq!(c.logs().len(), 0);
    assert!(!c.snapshot().running);
}

#[test]
fn clearing_the_log_leaves_the_search_alone() {
    let mut c = started(3);
    c.next_action(0);
    let state = c.snapshot();
    c.clear_logs();
    assert_eq!(c.logs().len(), 0);
    assert_eq!(c.snapshot(), state);
    assert!(c.worker(0).unwrap().in_flight);
}

#[test]
fn state_outcome_follows_the_counters() {
    let state = |stop: bool, found: usize| SearchState {
        running: false,
        stop_requested: stop,
        found_count: found,
        checked_count: 3,
        total_count: 10,
    };
    assert_eq!(state(false, 0).outcome(), RunResult::NotFound);
    assert_eq!(state(true, 0).outcome(), RunResult::Aborted);
    assert_eq!(state(true, 1).outcome(), RunResult::Found);
    assert_eq!(state(true, 2).outcome(), RunResult::Found);
}

fn stamps(c: &VehicleChecker) -> Vec<String> {
    c.logs().entries().iter().map(|e| e.timestamp.clone()).collect()
}

#[test]
fn a_frame_without_a_click_changes_the_status_only() {
    let mut c = started(3);
    c.next_action(0);
    c.record_outcome(0, &no_match());
    let state = c.snapshot();
    let held = stamps(&c);
    let lines = messages(&c);
    let shown = levels(&c);
    c.refresh_status();
    assert_eq!(c.status_text(), "Running... (1/10)");
    assert_eq!(c.snapshot(), state);
    assert_eq!(stamps(&c), held);
    assert_eq!(messages(&c), lines);
    assert_eq!(levels(&c), shown);
    assert_eq!(c.search_key(), "ABC-123");
    assert!(!c.worker(0).unwrap().in_flight);
}

#[test]
fn reporting_keeps_the_events_held() {
    let mut c = started(3);
    let held = stamps(&c);
    let lines = messages(&c);
    c.next_action(1);
    c.record_outcome(1, &record());
    c.stop_checking();
    c.next_action(0);
    c.log("note".to_string(), LogLevel::Info);
    assert_eq!(&stamps(&c)[..held.len()], &held[..]);
    assert_eq!(&messages(&c)[..lines.len()], &lines[..]);
    assert_eq!(stamps(&c).len(), messages(&c).len());
}

#[test]
fn finishing_leaves_the_log_alone() {
    let mut c = started(1);
    let held = stamps(&c);
    let lines = messages(&c);
    assert!(!c.finish());
    assert_eq!(stamps(&c), held);
    assert_eq!(messages(&c), lines);
}

#[test]
fn total_count_is_the_number_of_days_entered() {
    let mut c = VehicleChecker::new();
    assert_eq!(c.start_checking(&form("abc", " 2023-12-25", "2024-01-05 ", 4)), Ok(4));
    assert_eq!(c.snapshot().total_count, 12);
    assert_eq!(c.worker(0).unwrap().first, Date::parse("2023-12-25").unwrap().days());
    assert_eq!(c.worker(3).unwrap().last, Date::parse("2024-01-05").unwrap().days());
}

#[test]
fn identifier_of_white_space_beyond_ascii_is_empty() {
    let mut c = VehicleChecker::new();
    let r = c.start_checking(&form("\u{3000}\u{a0}", "2024-01-01", "2024-01-10", 3));
    assert_eq!(r, Err(ConfigError::EmptyIdentifier));
}
