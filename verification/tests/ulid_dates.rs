use shuttlings_cch23::clock::seconds_until;
use shuttlings_cch23::ulids::{
    count, mark, read_marks, timestamp_ms, ulid_to_dates, ulids_to_uuids, DateTally, Marks, UlidError,
};

fn texts(list: &[&str]) -> Vec<String> {
    list.iter().map(|s| s.to_string()).collect()
}

const CHRISTMAS_EVE_2023: &str = "01HJDV4GG00000000000000001";
const NEW_YEAR_2024: &str = "01HK153X000000000000000002";
const CHRISTMAS_EVE_2100: &str = "03R9G6GZ0R0000000000000003";
const EPOCH: &str = "00000000000000000000000000";
const CHRISTMAS_DAY_2023: &str = "01HJF4AW000000000000000005";
const LAST_MILLISECOND: &str = "76EZ68Q8R00000000000000001";
const ONE_TOO_LATE: &str = "76EZ68Q8R10000000000000001";

/// Noon on 1 June 2024 in nanoseconds since the epoch.
const NOW: i128 = 1_717_243_200_000_000_000;

#[test]
fn ulids_become_uuids_last_first() {
    let list = texts(&[
        "01BJQ0E1C3Z56ABCD0E11HYX4M",
        "01BJQ0E1C3Z56ABCD0E11HYX5N",
        "01BJQ0E1C3Z56ABCD0E11HYX6Q",
        "01BJQ0E1C3Z56ABCD0E11HYX7R",
        "01BJQ0E1C3Z56ABCD0E11HYX8P",
    ]);
    assert_eq!(
        ulids_to_uuids(&list),
        Ok(vec![
            0x015cae07_0583_f94c_a5b1_a070431f7516,
            0x015cae07_0583_f94c_a5b1_a070431f74f8,
            0x015cae07_0583_f94c_a5b1_a070431f74d7,
            0x015cae07_0583_f94c_a5b1_a070431f74b5,
            0x015cae07_0583_f94c_a5b1_a070431f7494,
        ])
    );
}

#[test]
fn no_ulids_no_uuids() {
    assert_eq!(ulids_to_uuids(&Vec::new()), Ok(Vec::new()));
}

#[test]
fn either_case_is_read() {
    assert_eq!(
        ulids_to_uuids(&texts(&["01bjq0e1c3z56abcd0e11hyx4m"])),
        Ok(vec![0x015cae07_0583_f94c_a5b1_a070431f7494])
    );
}

#[test]
fn bits_beyond_128_are_dropped() {
    assert_eq!(ulids_to_uuids(&texts(&["ZZZZZZZZZZZZZZZZZZZZZZZZZZ"])), Ok(vec![u128::MAX]));
    assert_eq!(
        ulids_to_uuids(&texts(&["8ZZZZZZZZZZZZZZZZZZZZZZZZZ"])),
        Ok(vec![42535295865117307932921825928971026431])
    );
}

#[test]
fn what_is_no_ulid_is_refused() {
    assert_eq!(ulids_to_uuids(&texts(&["01BJQ0E1C3Z56ABCD0E11HYX4"])), Err(UlidError::ParseULIDError));
    assert_eq!(ulids_to_uuids(&texts(&["01BJQ0E1C3Z56ABCD0E11HYX4MM"])), Err(UlidError::ParseULIDError));
    assert_eq!(ulids_to_uuids(&texts(&["01BJQ0E1C3Z56ABCD0E11HYX4U"])), Err(UlidError::ParseULIDError));
    assert_eq!(ulids_to_uuids(&texts(&["01BJQ0E1C3Z56ABCD0E11HYX4I"])), Err(UlidError::ParseULIDError));
    assert_eq!(ulids_to_uuids(&texts(&["01BJQ0E1C3Z56ABCD0E11HYX4L"])), Err(UlidError::ParseULIDError));
    assert_eq!(ulids_to_uuids(&texts(&["01BJQ0E1C3Z56ABCD0E11HYX4O"])), Err(UlidError::ParseULIDError));
    assert_eq!(ulids_to_uuids(&texts(&["01BJQ0E1C3Z56ABCD0E11HYX\u{e9}"])), Err(UlidError::ParseULIDError));
    assert_eq!(ulids_to_uuids(&texts(&[""])), Err(UlidError::ParseULIDError));
    assert_eq!(
        ulids_to_uuids(&texts(&["01BJQ0E1C3Z56ABCD0E11HYX4M", "nope", "01BJQ0E1C3Z56ABCD0E11HYX5N"])),
        Err(UlidError::ParseULIDError)
    );
}

#[test]
fn timestamp_is_the_high_48_bits() {
    assert_eq!(timestamp_ms(1810449002345264619855269099353371796), 1497568314755);
    assert_eq!(timestamp_ms(0), 0);
    assert_eq!(timestamp_ms(u128::MAX), 281474976710655);
    assert_eq!(timestamp_ms((1u128 << 80) - 1), 0);
    assert_eq!(timestamp_ms(1u128 << 80), 1);
}

#[test]
fn dates_are_tallied() {
    let list = texts(&[CHRISTMAS_EVE_2023, NEW_YEAR_2024, CHRISTMAS_EVE_2100, EPOCH, CHRISTMAS_DAY_2023]);
    assert_eq!(
        ulid_to_dates(0, &list, NOW),
        Ok(DateTally { christmas_eve: 2, weekday: 2, in_the_future: 1, lsb_is_one: 3 })
    );
    assert_eq!(
        ulid_to_dates(6, &list, NOW),
        Ok(DateTally { christmas_eve: 2, weekday: 1, in_the_future: 1, lsb_is_one: 3 })
    );
    assert_eq!(
        ulid_to_dates(4, &list, 0),
        Ok(DateTally { christmas_eve: 2, weekday: 1, in_the_future: 4, lsb_is_one: 3 })
    );
    assert_eq!(
        ulid_to_dates(9, &list, NOW),
        Ok(DateTally { christmas_eve: 2, weekday: 0, in_the_future: 1, lsb_is_one: 3 })
    );
}

#[test]
fn an_empty_list_tallies_nothing() {
    assert_eq!(
        ulid_to_dates(0, &Vec::new(), NOW),
        Ok(DateTally { christmas_eve: 0, weekday: 0, in_the_future: 0, lsb_is_one: 0 })
    );
}

#[test]
fn the_first_error_ends_the_tally() {
    assert_eq!(
        ulid_to_dates(0, &texts(&[CHRISTMAS_EVE_2023, "nope", ONE_TOO_LATE]), NOW),
        Err(UlidError::ParseULIDError)
    );
    assert_eq!(
        ulid_to_dates(0, &texts(&[CHRISTMAS_EVE_2023, ONE_TOO_LATE, "nope"]), NOW),
        Err(UlidError::ParseTimestampError)
    );
}

#[test]
fn the_calendar_ends_in_9999() {
    assert_eq!(
        read_marks(LAST_MILLISECOND, 3, NOW),
        Ok(Marks { christmas_eve: false, weekday: true, in_the_future: true, lsb_is_one: true })
    );
    assert_eq!(read_marks(ONE_TOO_LATE, 3, NOW), Err(UlidError::ParseTimestampError));
    assert_eq!(read_marks("7ZZZZZZZZZ0000000000000000", 3, NOW), Err(UlidError::ParseTimestampError));
    assert_eq!(read_marks("7ZZZZZZZZZ000000000000000", 3, NOW), Err(UlidError::ParseULIDError));
}

#[test]
fn marks_of_single_ulids() {
    assert_eq!(
        read_marks(CHRISTMAS_EVE_2023, 6, NOW),
        Ok(Marks { christmas_eve: true, weekday: true, in_the_future: false, lsb_is_one: true })
    );
    assert_eq!(
        read_marks(NEW_YEAR_2024, 0, NOW),
        Ok(Marks { christmas_eve: false, weekday: true, in_the_future: false, lsb_is_one: false })
    );
    assert_eq!(
        read_marks(EPOCH, 3, NOW),
        Ok(Marks { christmas_eve: false, weekday: true, in_the_future: false, lsb_is_one: false })
    );
    assert_eq!(
        read_marks(CHRISTMAS_EVE_2100, 4, NOW),
        Ok(Marks { christmas_eve: true, weekday: true, in_the_future: true, lsb_is_one: true })
    );
}

#[test]
fn the_future_begins_a_whole_second_ahead() {
    let value: u128 = 1_000_000u128 << 80;
    let instant: i128 = 1_000_000 * 1_000_000;
    let day = (1, 1, 3);
    assert!(!mark(value, day, 0, instant).in_the_future);
    assert!(!mark(value, day, 0, instant - 999_999_999).in_the_future);
    assert!(mark(value, day, 0, instant - 1_000_000_000).in_the_future);
    assert!(!mark(value, day, 0, instant + 5_000_000_000).in_the_future);
    assert!(mark(value, day, 0, i128::MIN).in_the_future);
    assert!(!mark(value, day, 0, i128::MAX).in_the_future);
}

#[test]
fn marks_on_given_days() {
    assert_eq!(
        mark(3, (12, 24, 5), 5, 0),
        Marks { christmas_eve: true, weekday: true, in_the_future: false, lsb_is_one: true }
    );
    assert_eq!(
        mark(2, (12, 25, 5), 4, 0),
        Marks { christmas_eve: false, weekday: false, in_the_future: false, lsb_is_one: false }
    );
    assert!(!mark(2, (11, 24, 5), 4, 0).christmas_eve);
}

#[test]
fn counting_adds_the_marks() {
    let start = DateTally { christmas_eve: 1, weekday: 2, in_the_future: 3, lsb_is_one: 4 };
    let all = Marks { christmas_eve: true, weekday: true, in_the_future: true, lsb_is_one: true };
    let none = Marks { christmas_eve: false, weekday: false, in_the_future: false, lsb_is_one: false };
    assert_eq!(count(start, all), DateTally { christmas_eve: 2, weekday: 3, in_the_future: 4, lsb_is_one: 5 });
    assert_eq!(count(start, none), start);
}

#[test]
fn whole_seconds_round_toward_zero() {
    assert_eq!(seconds_until(0, 0), Some(0));
    assert_eq!(seconds_until(0, 999_999_999), Some(0));
    assert_eq!(seconds_until(0, 1_000_000_000), Some(1));
    assert_eq!(seconds_until(0, -999_999_999), Some(0));
    assert_eq!(seconds_until(0, -1_000_000_000), Some(-1));
    assert_eq!(seconds_until(5_500_000_000, 1_000_000_000), Some(-4));
    assert_eq!(seconds_until(1_000_000_000, 5_500_000_000), Some(4));
}

#[test]
fn seconds_that_do_not_fit() {
    assert_eq!(seconds_until(i128::MIN, i128::MAX), None);
    assert_eq!(seconds_until(i128::MAX, i128::MIN), None);
    assert_eq!(seconds_until(0, i128::MIN), None);
    assert_eq!(seconds_until(0, i128::MAX), None);
    assert_eq!(seconds_until(0, 9_223_372_036_854_775_807_999_999_999), Some(i64::MAX));
    assert_eq!(seconds_until(0, 9_223_372_036_854_775_808_000_000_000), None);
    assert_eq!(seconds_until(0, -9_223_372_036_854_775_808_999_999_999), Some(i64::MIN));
    assert_eq!(seconds_until(0, -9_223_372_036_854_775_809_000_000_000), None);
}
