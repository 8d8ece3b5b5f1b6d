use unity_launcher::calendar::{epoch_to_ymdhms, is_leap, stamp_seconds, timestamp, timestamp_at};

#[test]
fn leap_years() {
    assert!(is_leap(2000));
    assert!(is_leap(2024));
    assert!(!is_leap(1900));
    assert!(!is_leap(2026));
    assert!(is_leap(0));
    assert!(is_leap(-4));
    assert!(!is_leap(-1));
    assert!(!is_leap(-100));
    assert!(is_leap(-400));
}

#[test]
fn known_moments() {
    assert_eq!(epoch_to_ymdhms(0), (1970, 1, 1, 0, 0, 0));
    assert_eq!(epoch_to_ymdhms(86_399), (1970, 1, 1, 23, 59, 59));
    assert_eq!(epoch_to_ymdhms(951_782_400), (2000, 2, 29, 0, 0, 0));
    assert_eq!(epoch_to_ymdhms(951_868_800), (2000, 3, 1, 0, 0, 0));
    assert_eq!(epoch_to_ymdhms(1_779_951_340), (2026, 5, 28, 6, 55, 40));
    assert_eq!(epoch_to_ymdhms(4_107_542_399), (2100, 2, 28, 23, 59, 59));
    assert_eq!(epoch_to_ymdhms(4_107_542_400), (2100, 3, 1, 0, 0, 0));
    assert_eq!(epoch_to_ymdhms(253_402_300_799), (9999, 12, 31, 23, 59, 59));
}

#[test]
fn each_day_follows_the_one_before() {
    let mut last = epoch_to_ymdhms(0);
    for day in 1..60_000u64 {
        let now = epoch_to_ymdhms(day * 86_400);
        let next_day = now.0 == last.0 && now.1 == last.1 && now.2 == last.2 + 1;
        let next_month = now.0 == last.0 && now.1 == last.1 + 1 && now.2 == 1 && last.2 >= 28;
        let next_year = now == (last.0 + 1, 1, 1, 0, 0, 0) && (last.1, last.2) == (12, 31);
        assert!(next_day || next_month || next_year, "{last:?} {now:?}");
        last = now;
    }
}

#[test]
fn timestamps() {
    assert_eq!(timestamp_at(0), "1970-01-01T00-00-00Z");
    assert_eq!(timestamp_at(1_779_951_340), "2026-05-28T06-55-40Z");
    assert_eq!(timestamp_at(253_402_300_800), "10000-01-01T00-00-00Z");
}

#[test]
fn a_clock_before_the_epoch_stamps_the_epoch() {
    assert_eq!(stamp_seconds(None), 0);
    assert_eq!(stamp_seconds(Some(7)), 7);
}

#[test]
fn the_present_is_stamped() {
    let before = std::time::SystemTime::now()
        .duration_since(std::time::UNIX_EPOCH)
        .unwrap()
        .as_secs();
    let stamp = timestamp();
    let after = std::time::SystemTime::now()
        .duration_since(std::time::UNIX_EPOCH)
        .unwrap()
        .as_secs();
    assert!((before..=after).any(|s| timestamp_at(s) == stamp), "{stamp}");
}

#[test]
fn seconds_next_to_each_other_have_their_own_stamps() {
    // The last second of each day from 1970 on, and the first of the next.
    for day in 1..20_000u64 {
        assert_ne!(timestamp_at(day * 86_400 - 1), timestamp_at(day * 86_400));
    }
    let mut stamps: Vec<String> = (0..7_200u64).map(timestamp_at).collect();
    stamps.sort();
    stamps.dedup();
    assert_eq!(stamps.len(), 7_200);
}
