use codep::entry::{EntryKind, RawEntry};
use codep::recency::{
    filter_by_age, get_min_system_time_from_max_age_days, sort_by_recency, take_limit, AgeError,
    Timestamp,
};

fn at(uri: &str, secs: u64) -> RawEntry {
    RawEntry {
        kind: EntryKind::Dir,
        uri: uri.to_string(),
        modified_at: Some(Timestamp::from_secs(secs)),
    }
}

fn untimed(uri: &str) -> RawEntry {
    RawEntry { kind: EntryKind::Dir, uri: uri.to_string(), modified_at: None }
}

fn uris(entries: &[RawEntry]) -> Vec<&str> {
    entries.iter().map(|e| e.uri.as_str()).collect()
}

fn seconds(entries: &[RawEntry]) -> Vec<u128> {
    entries.iter().map(|e| e.modified_at.unwrap().as_nanos() / 1_000_000_000).collect()
}

#[test]
fn timestamp_counts_nanoseconds() {
    assert_eq!(Timestamp::from_secs(0).as_nanos(), 0);
    assert_eq!(Timestamp::from_secs(2).as_nanos(), 2_000_000_000);
    assert_eq!(Timestamp::from_nanos(1_500_000_000).as_nanos(), 1_500_000_000);
    assert_eq!(Timestamp::from_secs(3), Timestamp::from_nanos(3_000_000_000));
    assert_eq!(Timestamp::from_secs(u64::MAX).as_nanos(), u64::MAX as u128 * 1_000_000_000);
}

#[test]
fn min_time_is_now_minus_the_days() {
    let now = Timestamp::from_secs(1_700_000_000);
    assert_eq!(
        get_min_system_time_from_max_age_days(now, 7),
        Ok(Timestamp::from_secs(1_700_000_000 - 7 * 86400))
    );
    assert_eq!(get_min_system_time_from_max_age_days(now, 0), Ok(now));
    assert_eq!(
        get_min_system_time_from_max_age_days(Timestamp::from_nanos(86_400_000_000_123), 1),
        Ok(Timestamp::from_nanos(123))
    );
}

#[test]
fn min_time_reaches_the_epoch_but_not_beyond() {
    let now = Timestamp::from_secs(10 * 86400);
    assert_eq!(get_min_system_time_from_max_age_days(now, 10), Ok(Timestamp::from_secs(0)));
    assert_eq!(get_min_system_time_from_max_age_days(now, 11), Err(AgeError::TooBig));
    assert_eq!(get_min_system_time_from_max_age_days(now, u32::MAX), Err(AgeError::TooBig));
    assert_eq!(
        get_min_system_time_from_max_age_days(Timestamp::from_nanos(10 * 86400 * 1_000_000_000 - 1), 10),
        Err(AgeError::TooBig)
    );
}

#[test]
fn min_time_of_the_largest_window_does_not_overflow() {
    let now = Timestamp::from_secs(u64::MAX);
    let window = u32::MAX as u128 * 86400 * 1_000_000_000;
    assert_eq!(
        get_min_system_time_from_max_age_days(now, u32::MAX),
        Ok(Timestamp::from_nanos(now.as_nanos() - window))
    );
}

#[test]
fn sort_is_descending_by_time() {
    let sorted = sort_by_recency(&vec![at("a", 10), at("b", 30), at("c", 20)]);
    assert_eq!(seconds(&sorted), vec![30, 20, 10]);
    assert_eq!(uris(&sorted), vec!["b", "c", "a"]);
}

#[test]
fn sort_is_stable() {
    let sorted = sort_by_recency(&vec![
        at("a", 5),
        at("b", 7),
        at("c", 5),
        at("d", 7),
        at("e", 5),
        at("f", 9),
    ]);
    assert_eq!(uris(&sorted), vec!["f", "b", "d", "a", "c", "e"]);
}

#[test]
fn sort_tells_nanoseconds_apart() {
    let early = RawEntry {
        kind: EntryKind::Dir,
        uri: "early".to_string(),
        modified_at: Some(Timestamp::from_nanos(1_000_000_001)),
    };
    let late = RawEntry {
        kind: EntryKind::Dir,
        uri: "late".to_string(),
        modified_at: Some(Timestamp::from_nanos(1_000_000_002)),
    };
    assert_eq!(uris(&sort_by_recency(&vec![early, late])), vec!["late", "early"]);
}

#[test]
fn sort_puts_entries_without_time_last_in_their_order() {
    let sorted = sort_by_recency(&vec![untimed("x"), at("a", 0), untimed("y"), at("b", 1)]);
    assert_eq!(uris(&sorted), vec!["b", "a", "x", "y"]);
    let same = sort_by_recency(&vec![untimed("x"), untimed("y"), untimed("z")]);
    assert_eq!(uris(&same), vec!["x", "y", "z"]);
}

#[test]
fn sort_of_nothing_and_of_one() {
    assert_eq!(sort_by_recency(&vec![]), vec![]);
    assert_eq!(sort_by_recency(&vec![at("a", 1)]), vec![at("a", 1)]);
}

#[test]
fn age_filter_is_inclusive_at_the_cutoff() {
    let now: u64 = 1_700_000_000;
    let week: u64 = 7 * 86400;
    let min = get_min_system_time_from_max_age_days(Timestamp::from_secs(now), 7).unwrap();
    let just_older = RawEntry {
        kind: EntryKind::Dir,
        uri: "just-older".to_string(),
        modified_at: Some(Timestamp::from_nanos((now - week) as u128 * 1_000_000_000 - 1)),
    };
    let entries = vec![
        at("fresh", now),
        at("boundary", now - week),
        at("older", now - week - 1),
        just_older,
        at("newer", now - week + 1),
        at("future", now + 5),
    ];
    let kept = filter_by_age(&entries, Some(min));
    assert_eq!(uris(&kept), vec!["fresh", "boundary", "newer", "future"]);
}

#[test]
fn age_filter_without_cutoff_keeps_all() {
    let entries = vec![at("a", 0), at("b", 5), untimed("c")];
    assert_eq!(filter_by_age(&entries, None), entries);
}

#[test]
fn age_filter_keeps_entries_without_time() {
    let entries = vec![untimed("menu"), at("old", 1), at("new", 100)];
    let kept = filter_by_age(&entries, Some(Timestamp::from_secs(50)));
    assert_eq!(uris(&kept), vec!["menu", "new"]);
}

#[test]
fn limit_keeps_the_first() {
    let entries = vec![at("a", 3), at("b", 2), at("c", 1)];
    assert_eq!(uris(&take_limit(&entries, Some(2))), vec!["a", "b"]);
    assert_eq!(uris(&take_limit(&entries, Some(0))), Vec::<&str>::new());
    assert_eq!(uris(&take_limit(&entries, Some(3))), vec!["a", "b", "c"]);
    assert_eq!(uris(&take_limit(&entries, Some(100))), vec!["a", "b", "c"]);
    assert_eq!(uris(&take_limit(&entries, Some(usize::MAX))), vec!["a", "b", "c"]);
    assert_eq!(uris(&take_limit(&entries, None)), vec!["a", "b", "c"]);
}
