use bet_archiver::calendar::{get_hong_kong_11_hours_from_date, Date};
use bet_archiver::error::ArchiveError;
use bet_archiver::ledger::{Ledger, LedgerEntry};
use bet_archiver::records::{OpeningBalance, UserInfo};
use bet_archiver::rollforward::{create_opening_balance_records, find_last_opening_balance_record};
use bet_archiver::state::State;
use bet_archiver::types::UserID;

fn date(year: i32, month: u8, day: u8) -> Date {
    Date::from_calendar_date(year, month, day).unwrap()
}

fn entry(user: u128, day: Date, amount: i64) -> LedgerEntry {
    LedgerEntry { user_id: UserID(user), day, amount }
}

fn player(user: u128, is_credit: bool) -> UserInfo {
    UserInfo { user_id: UserID(user), is_credit }
}

fn seeded(day: Date) -> Ledger {
    let mut ledger = Ledger::new();
    ledger.merge_upsert(&vec![entry(1, day, 500), entry(2, day, -30), entry(9, day, 7)]).unwrap();
    ledger
}

#[test]
fn last_checkpoint_is_searched_month_by_month() {
    let ledger = seeded(date(2023, 11, 20));
    assert_eq!(find_last_opening_balance_record(&ledger, date(2024, 3, 15)).unwrap(), date(2023, 11, 20));
    assert_eq!(find_last_opening_balance_record(&ledger, date(2023, 11, 1)).unwrap(), date(2023, 11, 20));
    assert!(matches!(
        find_last_opening_balance_record(&ledger, date(2023, 10, 31)),
        Err(ArchiveError::NoOpeningBalance)
    ));
    let mut two = seeded(date(2023, 11, 20));
    two.merge_upsert(&vec![entry(1, date(2024, 2, 3), 1), entry(1, date(2024, 2, 1), 1)]).unwrap();
    assert_eq!(find_last_opening_balance_record(&two, date(2024, 3, 15)).unwrap(), date(2024, 2, 3));
    assert_eq!(find_last_opening_balance_record(&two, date(2024, 1, 15)).unwrap(), date(2023, 11, 20));
}

#[test]
fn empty_ledger_has_no_checkpoint() {
    let ledger = Ledger::new();
    assert!(matches!(
        find_last_opening_balance_record(&ledger, date(2024, 3, 15)),
        Err(ArchiveError::NoOpeningBalance)
    ));
    let old = seeded(date(2020, 12, 31));
    assert!(matches!(
        find_last_opening_balance_record(&old, date(2024, 3, 15)),
        Err(ArchiveError::NoOpeningBalance)
    ));
    let mut ledger = Ledger::new();
    let mut state = State::new();
    assert!(matches!(
        create_opening_balance_records(&mut ledger, &vec![player(1, true)], &mut state, date(2024, 3, 15)),
        Err(ArchiveError::NoOpeningBalance)
    ));
    assert!(!state.is_credit_player(UserID(1)));
}

#[test]
fn every_day_through_tomorrow_gets_the_last_amounts() {
    let last = date(2024, 2, 27);
    let mut ledger = seeded(last);
    let mut state = State::new();
    let players = vec![player(1, true), player(2, false), player(3, true)];
    create_opening_balance_records(&mut ledger, &players, &mut state, date(2024, 3, 1)).unwrap();
    for day in [date(2024, 2, 28), date(2024, 2, 29), date(2024, 3, 1), date(2024, 3, 2)] {
        assert_eq!(ledger.get(UserID(1), day), Some(500));
        assert_eq!(ledger.get(UserID(2), day), Some(-30));
        assert_eq!(ledger.get(UserID(3), day), None);
        assert_eq!(ledger.get(UserID(9), day), None);
    }
    assert_eq!(ledger.get(UserID(1), last), Some(500));
    assert_eq!(ledger.get(UserID(1), date(2024, 3, 3)), None);
    assert!(state.is_credit_player(UserID(1)));
    assert!(!state.is_credit_player(UserID(2)));
    assert!(state.is_credit_player(UserID(3)));
    assert_eq!(ledger.get_latest_checkpoint(date(2024, 3, 1)), Some(date(2024, 3, 2)));
}

#[test]
fn second_run_on_the_same_day_changes_nothing() {
    let mut ledger = seeded(date(2024, 3, 10));
    let mut state = State::new();
    let players = vec![player(1, true), player(2, false)];
    let today = date(2024, 3, 14);
    create_opening_balance_records(&mut ledger, &players, &mut state, today).unwrap();
    assert_eq!(ledger.get(UserID(1), date(2024, 3, 15)), Some(500));
    assert_eq!(find_last_opening_balance_record(&ledger, today).unwrap(), date(2024, 3, 15));
    create_opening_balance_records(&mut ledger, &players, &mut state, today).unwrap();
    for day in [date(2024, 3, 11), date(2024, 3, 12), date(2024, 3, 13), date(2024, 3, 14), date(2024, 3, 15)] {
        assert_eq!(ledger.get(UserID(1), day), Some(500));
        assert_eq!(ledger.get(UserID(2), day), Some(-30));
    }
    assert_eq!(ledger.get(UserID(1), date(2024, 3, 16)), None);
}

#[test]
fn second_run_after_one_that_had_no_row_to_roll_changes_nothing() {
    let last = date(2024, 3, 10);
    let mut ledger = seeded(last);
    let mut state = State::new();
    let players = vec![player(3, true), player(4, false)];
    let today = date(2024, 3, 14);
    create_opening_balance_records(&mut ledger, &players, &mut state, today).unwrap();
    let users = vec![UserID(1), UserID(2), UserID(3), UserID(4), UserID(9)];
    assert_eq!(find_last_opening_balance_record(&ledger, today).unwrap(), last);
    assert_eq!(ledger.get_entries(last, &users).len(), 3);
    create_opening_balance_records(&mut ledger, &players, &mut state, today).unwrap();
    assert_eq!(find_last_opening_balance_record(&ledger, today).unwrap(), last);
    assert_eq!(ledger.get_entries(last, &users).len(), 3);
    for day in [date(2024, 3, 11), date(2024, 3, 12), date(2024, 3, 13), date(2024, 3, 14), date(2024, 3, 15)] {
        assert_eq!(ledger.get_entries(day, &users).len(), 0);
    }
    assert_eq!(ledger.get(UserID(1), last), Some(500));
    assert_eq!(ledger.get(UserID(3), date(2024, 3, 15)), None);
    assert_eq!(ledger.get(UserID(1), date(2024, 3, 15)), None);
}

#[test]
fn rolling_forward_leaves_the_checkpoint_and_later_days_alone() {
    let last = date(2023, 12, 30);
    let mut ledger = seeded(last);
    ledger.merge_upsert(&vec![entry(2, date(2023, 12, 1), 11)]).unwrap();
    let mut state = State::new();
    let players = vec![player(1, true)];
    create_opening_balance_records(&mut ledger, &players, &mut state, date(2024, 1, 1)).unwrap();
    for day in [date(2023, 12, 31), date(2024, 1, 1), date(2024, 1, 2)] {
        assert_eq!(ledger.get(UserID(1), day), Some(500));
        assert_eq!(ledger.get(UserID(2), day), None);
    }
    assert_eq!(ledger.get(UserID(1), last), Some(500));
    assert_eq!(ledger.get(UserID(2), last), Some(-30));
    assert_eq!(ledger.get(UserID(9), last), Some(7));
    assert_eq!(ledger.get(UserID(2), date(2023, 12, 1)), Some(11));
    assert_eq!(ledger.get(UserID(1), date(2024, 1, 3)), None);
    assert_eq!(ledger.get(UserID(1), date(2023, 12, 29)), None);
    let users = vec![UserID(1), UserID(2), UserID(9)];
    assert_eq!(ledger.get_entries(last, &users).len(), 3);
    assert_eq!(ledger.get_entries(date(2024, 1, 2), &users).len(), 1);
    assert_eq!(ledger.get_entries(date(2024, 1, 3), &users).len(), 0);
}

#[test]
fn second_run_on_the_last_day_of_a_month_merges_tomorrow_again() {
    let mut ledger = seeded(date(2024, 1, 30));
    let mut state = State::new();
    let players = vec![player(1, true)];
    let today = date(2024, 1, 31);
    create_opening_balance_records(&mut ledger, &players, &mut state, today).unwrap();
    assert_eq!(ledger.get(UserID(1), date(2024, 1, 31)), Some(500));
    assert_eq!(ledger.get(UserID(1), date(2024, 2, 1)), Some(500));
    assert_eq!(find_last_opening_balance_record(&ledger, today).unwrap(), date(2024, 1, 31));
    create_opening_balance_records(&mut ledger, &players, &mut state, today).unwrap();
    assert_eq!(ledger.get(UserID(1), date(2024, 1, 31)), Some(500));
    assert_eq!(ledger.get(UserID(1), date(2024, 2, 1)), Some(1000));
}

#[test]
fn players_are_taken_in_page_by_page() {
    let last = date(2024, 3, 10);
    let mut ledger = Ledger::new();
    let rows: Vec<LedgerEntry> = (0..4500u128).map(|u| entry(u, last, u as i64)).collect();
    ledger.merge_upsert(&rows).unwrap();
    let players: Vec<UserInfo> = (0..4500u128).map(|u| player(u, u % 2 == 0)).collect();
    let mut state = State::new();
    create_opening_balance_records(&mut ledger, &players, &mut state, date(2024, 3, 10)).unwrap();
    for user in [0u128, 1, 1999, 2000, 2001, 3999, 4000, 4499] {
        assert_eq!(ledger.get(UserID(user), date(2024, 3, 11)), Some(user as i64));
        assert_eq!(state.is_credit_player(UserID(user)), user % 2 == 0);
    }
    let exact: Vec<UserInfo> = (0..2000u128).map(|u| player(u, false)).collect();
    let mut ledger = Ledger::new();
    ledger.merge_upsert(&rows).unwrap();
    create_opening_balance_records(&mut ledger, &exact, &mut State::new(), date(2024, 3, 10)).unwrap();
    assert_eq!(ledger.get(UserID(1999), date(2024, 3, 11)), Some(1999));
    assert_eq!(ledger.get(UserID(2000), date(2024, 3, 11)), None);
}

#[test]
fn rolling_forward_fails_at_the_end_of_dates_and_on_overflow() {
    let mut ledger = seeded(date(9999, 12, 30));
    let mut state = State::new();
    assert!(matches!(
        create_opening_balance_records(&mut ledger, &vec![player(1, true)], &mut state, date(9999, 12, 31)),
        Err(ArchiveError::DateOutOfRange)
    ));
    assert!(!state.is_credit_player(UserID(1)));
    assert_eq!(ledger.get(UserID(1), date(9999, 12, 31)), None);

    let mut doubled = Ledger::new();
    doubled.merge_upsert(&vec![entry(1, date(2024, 3, 10), i64::MAX)]).unwrap();
    assert!(matches!(
        create_opening_balance_records(
            &mut doubled,
            &vec![player(1, true), player(1, true)],
            &mut state,
            date(2024, 3, 12)
        ),
        Err(ArchiveError::AmountOverflow)
    ));
}

#[test]
fn ledger_rows_go_in_and_out() {
    let day = date(2024, 3, 10);
    let mut ledger = Ledger::new();
    let rows = vec![
        OpeningBalance { id: 1, amount: 5, creation_date: get_hong_kong_11_hours_from_date(day), user_id: UserID(1) },
        OpeningBalance { id: 2, amount: 6, creation_date: get_hong_kong_11_hours_from_date(day), user_id: UserID(2) },
        OpeningBalance { id: 3, amount: 7, creation_date: get_hong_kong_11_hours_from_date(day), user_id: UserID(1) },
    ];
    ledger.insert_opening_balance_records(&rows).unwrap();
    assert_eq!(ledger.get(UserID(1), day), Some(12));
    let read = ledger.get_opening_balance_records(day, &vec![UserID(2), UserID(3), UserID(1)]);
    let seen: Vec<(UserID, i64)> = read.iter().map(|r| (r.user_id, r.amount)).collect();
    assert_eq!(seen, vec![(UserID(2), 6), (UserID(1), 12)]);
    assert!(read.iter().all(|r| r.creation_date == get_hong_kong_11_hours_from_date(day)));
    assert_eq!(
        ledger.get_entries(day, &vec![UserID(1), UserID(1), UserID(4)]),
        vec![entry(1, day, 12), entry(1, day, 12)]
    );
    assert!(ledger.get_entries(date(2024, 3, 11), &vec![UserID(1)]).is_empty());
}
