use vehicle_checker::date::{ConfigError, Date, DateRange, MAX_DAY, MIN_DAY};
use vehicle_checker::partition::partition;

fn day(text: &str) -> Date {
    Date::parse(text).expect("a date")
}

fn range(start: &str, end: &str) -> DateRange {
    DateRange::new(day(start), day(end)).expect("an ordered range")
}

fn lengths(shares: &[Option<DateRange>]) -> Vec<i64> {
    shares.iter().map(|s| s.map_or(0, |r| r.total_days())).collect()
}

#[test]
fn ten_days_among_three_workers() {
    let shares = partition(&range("2024-01-01", "2024-01-10"), 3).unwrap();
    assert_eq!(shares.len(), 3);
    assert_eq!(lengths(&shares), vec![4, 3, 3]);
    assert_eq!(shares[0], Some(range("2024-01-01", "2024-01-04")));
    assert_eq!(shares[1], Some(range("2024-01-05", "2024-01-07")));
    assert_eq!(shares[2], Some(range("2024-01-08", "2024-01-10")));
}

#[test]
fn no_worker_is_refused() {
    assert_eq!(
        partition(&range("2024-01-01", "2024-01-10"), 0),
        Err(ConfigError::InvalidWorkerCount)
    );
}

#[test]
fn single_day_single_worker() {
    let shares = partition(&range("2024-02-29", "2024-02-29"), 1).unwrap();
    assert_eq!(shares, vec![Some(range("2024-02-29", "2024-02-29"))]);
}

#[test]
fn more_workers_than_days_leaves_trailing_shares_empty() {
    let shares = partition(&range("2024-01-01", "2024-01-03"), 5).unwrap();
    assert_eq!(shares.len(), 5);
    assert_eq!(shares[0], Some(range("2024-01-01", "2024-01-01")));
    assert_eq!(shares[1], Some(range("2024-01-02", "2024-01-02")));
    assert_eq!(shares[2], Some(range("2024-01-03", "2024-01-03")));
    assert_eq!(shares[3], None);
    assert_eq!(shares[4], None);
}

#[test]
fn even_split_has_equal_shares() {
    let shares = partition(&range("2024-01-01", "2024-01-12"), 4).unwrap();
    assert_eq!(lengths(&shares), vec![3, 3, 3, 3]);
    assert_eq!(shares[3], Some(range("2024-01-10", "2024-01-12")));
}

#[test]
fn remainder_goes_to_the_first_shares() {
    let shares = partition(&range("2024-01-01", "2024-01-11"), 4).unwrap();
    assert_eq!(lengths(&shares), vec![3, 3, 3, 2]);
    let shares = partition(&range("2024-01-01", "2024-01-14"), 4).unwrap();
    assert_eq!(lengths(&shares), vec![4, 4, 3, 3]);
}

#[test]
fn same_input_gives_the_same_partition() {
    let r = range("1999-12-25", "2001-03-04");
    let a = partition(&r, 7).unwrap();
    let b = partition(&r, 7).unwrap();
    assert_eq!(a, b);
}

#[test]
fn shares_cover_the_range_in_order_without_overlap() {
    let r = range("2023-11-20", "2024-03-10");
    for k in 1..=130usize {
        let shares = partition(&r, k).unwrap();
        assert_eq!(shares.len(), k);
        let mut next = r.first_day();
        let mut longest = 0;
        let mut shortest = i64::MAX;
        let mut seen_empty = false;
        for share in &shares {
            let len = share.map_or(0, |s| s.total_days());
            longest = longest.max(len);
            shortest = shortest.min(len);
            match share {
                Some(s) => {
                    assert!(!seen_empty);
                    assert_eq!(s.first_day(), next);
                    assert!(s.last_day() >= s.first_day());
                    next = s.last_day() + 1;
                }
                None => seen_empty = true,
            }
        }
        assert_eq!(next, r.last_day() + 1);
        assert!(longest - shortest <= 1);
    }
}

#[test]
fn partition_across_a_leap_day() {
    let shares = partition(&range("2024-02-27", "2024-03-02"), 2).unwrap();
    assert_eq!(shares[0], Some(range("2024-02-27", "2024-02-29")));
    assert_eq!(shares[1], Some(range("2024-03-01", "2024-03-02")));
}

#[test]
fn partition_of_the_whole_calendar() {
    let all = DateRange::new(Date::from_days(MIN_DAY).unwrap(), Date::from_days(MAX_DAY).unwrap())
        .unwrap();
    assert_eq!(all.total_days(), 191_491_529);
    let shares = partition(&all, 2).unwrap();
    assert_eq!(lengths(&shares), vec![95_745_765, 95_745_764]);
    assert_eq!(shares[1].unwrap().last_day(), MAX_DAY);
}
