use bet_archiver::calendar::{
    add_month, checked_figures_date, get_figures_date, get_hong_kong_11_hours,
    get_hong_kong_11_hours_from_date, leap_year, month_length, months_from_through,
    subtract_one_month, Date, Timestamp,
};

fn date(year: i32, month: u8, day: u8) -> Date {
    Date::from_calendar_date(year, month, day).unwrap()
}

fn same_as_time(d: Date) -> time::Date {
    let month = time::Month::try_from(d.get_month()).unwrap();
    time::Date::from_calendar_date(d.get_year(), month, d.get_day()).unwrap()
}

#[test]
fn rejects_what_is_no_date() {
    assert!(Date::from_calendar_date(2023, 2, 29).is_none());
    assert!(Date::from_calendar_date(2024, 2, 29).is_some());
    assert!(Date::from_calendar_date(2024, 13, 1).is_none());
    assert!(Date::from_calendar_date(2024, 0, 1).is_none());
    assert!(Date::from_calendar_date(2024, 4, 31).is_none());
    assert!(Date::from_calendar_date(2024, 4, 0).is_none());
    assert!(Date::from_calendar_date(10000, 1, 1).is_none());
    assert!(Date::from_calendar_date(-10000, 1, 1).is_none());
    assert!(Date::from_calendar_date(-9999, 1, 1).is_some());
    assert!(Date::from_calendar_date(9999, 12, 31).is_some());
}

#[test]
fn leap_years_and_month_lengths() {
    assert!(leap_year(2024));
    assert!(!leap_year(2023));
    assert!(!leap_year(1900));
    assert!(leap_year(2000));
    assert_eq!(month_length(2024, 2), 29);
    assert_eq!(month_length(2023, 2), 28);
    assert_eq!(month_length(2023, 4), 30);
    assert_eq!(month_length(2023, 12), 31);
    assert_eq!(month_length(2023, 13), 0);
}

#[test]
fn next_and_previous_day_agree_with_the_time_crate() {
    let mut cursor = date(2019, 12, 25);
    let mut theirs = same_as_time(cursor);
    for _ in 0..2000 {
        let next = cursor.next_day().unwrap();
        let their_next = theirs.next_day().unwrap();
        assert_eq!(same_as_time(next), their_next);
        assert_eq!(next.previous_day().unwrap(), cursor);
        assert!(cursor.is_before(&next));
        assert!(!next.is_before(&cursor));
        assert!(next.is_on_or_after(&cursor));
        cursor = next;
        theirs = their_next;
    }
}

#[test]
fn first_and_last_date_have_one_neighbour() {
    assert!(date(9999, 12, 31).next_day().is_none());
    assert!(date(-9999, 1, 1).previous_day().is_none());
    assert_eq!(date(9999, 12, 30).next_day(), Some(date(9999, 12, 31)));
    assert_eq!(date(2024, 2, 28).next_day(), Some(date(2024, 2, 29)));
    assert_eq!(date(2023, 2, 28).next_day(), Some(date(2023, 3, 1)));
    assert_eq!(date(2023, 12, 31).next_day(), Some(date(2024, 1, 1)));
    assert_eq!(date(2024, 3, 1).previous_day(), Some(date(2024, 2, 29)));
    assert_eq!(date(2024, 1, 1).previous_day(), Some(date(2023, 12, 31)));
}

#[test]
fn add_month_keeps_the_day_but_after_december() {
    assert_eq!(add_month(date(2024, 1, 1)), date(2024, 2, 1));
    assert_eq!(add_month(date(2024, 3, 15)), date(2024, 4, 15));
    assert_eq!(add_month(date(2024, 12, 25)), date(2025, 1, 1));
    assert_eq!(add_month(date(2024, 11, 30)), date(2024, 12, 30));
}

#[test]
fn subtract_one_month_gives_the_first_of_the_month_before() {
    assert_eq!(subtract_one_month(date(2024, 3, 15)), date(2024, 2, 1));
    assert_eq!(subtract_one_month(date(2024, 1, 31)), date(2023, 12, 1));
    assert_eq!(subtract_one_month(date(2021, 1, 1)), date(2020, 12, 1));
}

#[test]
fn months_run_through_the_last_month() {
    assert_eq!(
        months_from_through(date(2023, 11, 17), date(2024, 2, 3)),
        vec![date(2023, 11, 1), date(2023, 12, 1), date(2024, 1, 1), date(2024, 2, 1)]
    );
    assert_eq!(months_from_through(date(2024, 2, 17), date(2024, 2, 3)), vec![date(2024, 2, 1)]);
    assert_eq!(months_from_through(date(2024, 3, 1), date(2024, 2, 29)), vec![date(2024, 3, 1)]);
    assert_eq!(
        months_from_through(date(9999, 11, 1), date(9999, 12, 31)),
        vec![date(9999, 11, 1), date(9999, 12, 1)]
    );
}

#[test]
fn cutoff_is_three_o_clock() {
    let at = get_hong_kong_11_hours_from_date(date(2024, 3, 4));
    assert_eq!(at.get_date(), date(2024, 3, 4));
    assert_eq!(at.get_hour(), 3);
    assert_eq!(at.get_minute(), 0);
    assert_eq!(at.get_second(), 0);
    assert_eq!(at.get_nanosecond(), 0);
    assert_eq!(Timestamp::new(date(2024, 3, 4), 3, 0, 0, 0), Some(at));
    assert_eq!(Timestamp::new(date(2024, 3, 4), 17, 45, 9, 1).unwrap().at_cutoff(), at);
}

#[test]
fn today_cutoff_is_on_the_clock_s_date() {
    let before = time::OffsetDateTime::now_utc().date();
    let at = get_hong_kong_11_hours();
    let after = time::OffsetDateTime::now_utc().date();
    assert_eq!(at.get_hour(), 3);
    assert_eq!(at.get_minute(), 0);
    let ours = same_as_time(at.get_date());
    assert!(ours == before || ours == after);
}

#[test]
fn rejects_what_is_no_time_of_day() {
    let day = date(2024, 3, 4);
    assert!(Timestamp::new(day, 24, 0, 0, 0).is_none());
    assert!(Timestamp::new(day, 0, 60, 0, 0).is_none());
    assert!(Timestamp::new(day, 0, 0, 60, 0).is_none());
    assert!(Timestamp::new(day, 0, 0, 0, 1_000_000_000).is_none());
    assert!(Timestamp::new(day, 23, 59, 59, 999_999_999).is_some());
}

#[test]
fn settlement_day_turns_at_the_cutoff() {
    let day = date(2024, 3, 4);
    let at_cutoff = Timestamp::new(day, 3, 0, 0, 0).unwrap();
    let a_microsecond_before = Timestamp::new(day, 2, 59, 59, 999_999_000).unwrap();
    assert_eq!(get_figures_date(at_cutoff), date(2024, 3, 5));
    assert_eq!(get_figures_date(a_microsecond_before), date(2024, 3, 4));
    assert_eq!(get_figures_date(Timestamp::new(day, 0, 0, 0, 0).unwrap()), day);
    assert_eq!(get_figures_date(Timestamp::new(day, 23, 59, 59, 0).unwrap()), date(2024, 3, 5));
    let end_of_month = Timestamp::new(date(2024, 2, 29), 12, 0, 0, 0).unwrap();
    assert_eq!(get_figures_date(end_of_month), date(2024, 3, 1));
}

#[test]
fn last_date_has_no_settlement_day_from_the_cutoff_on() {
    let last = date(9999, 12, 31);
    assert_eq!(checked_figures_date(Timestamp::new(last, 3, 0, 0, 0).unwrap()), None);
    assert_eq!(checked_figures_date(Timestamp::new(last, 2, 59, 59, 0).unwrap()), Some(last));
}

#[test]
fn timestamps_are_ordered_by_date_then_time() {
    let early = Timestamp::new(date(2024, 3, 4), 23, 0, 0, 0).unwrap();
    let late = Timestamp::new(date(2024, 3, 5), 1, 0, 0, 0).unwrap();
    let later = Timestamp::new(date(2024, 3, 5), 1, 0, 0, 1).unwrap();
    assert!(early.is_before(&late));
    assert!(late.is_before(&later));
    assert!(!later.is_before(&late));
    assert!(!late.is_before(&late));
}
