use bet_archiver::calendar::Date;
use bet_archiver::error::ArchiveError;
use bet_archiver::ledger::{Ledger, LedgerEntry};
use bet_archiver::types::UserID;

fn date(year: i32, month: u8, day: u8) -> Date {
    Date::from_calendar_date(year, month, day).unwrap()
}

fn entry(user: u128, day: Date, amount: i64) -> LedgerEntry {
    LedgerEntry { user_id: UserID(user), day, amount }
}

#[test]
fn merging_twice_adds_up() {
    let day = date(2024, 3, 5);
    let mut ledger = Ledger::new();
    assert_eq!(ledger.get(UserID(1), day), None);
    ledger.merge_upsert(&vec![entry(1, day, 5)]).unwrap();
    assert_eq!(ledger.get(UserID(1), day), Some(5));
    ledger.merge_upsert(&vec![entry(1, day, 5)]).unwrap();
    assert_eq!(ledger.get(UserID(1), day), Some(10));
}

#[test]
fn merging_in_parts_equals_merging_the_sum() {
    let day = date(2024, 3, 5);
    let mut parts = Ledger::new();
    parts.merge_upsert(&vec![entry(1, day, 3)]).unwrap();
    parts.merge_upsert(&vec![entry(1, day, 4)]).unwrap();
    let mut whole = Ledger::new();
    whole.merge_upsert(&vec![entry(1, day, 7)]).unwrap();
    assert_eq!(parts.get(UserID(1), day), whole.get(UserID(1), day));
    assert_eq!(parts.get(UserID(1), day), Some(7));
}

#[test]
fn merging_in_either_order_leaves_the_same_amounts() {
    let a = entry(1, date(2024, 3, 5), 3);
    let b = entry(2, date(2024, 3, 5), -4);
    let c = entry(1, date(2024, 3, 6), 10);
    let d = entry(1, date(2024, 3, 5), 100);
    let mut forward = Ledger::new();
    forward.merge_upsert(&vec![a, b, c, d]).unwrap();
    let mut backward = Ledger::new();
    backward.merge_upsert(&vec![d, c, b, a]).unwrap();
    for user in [1, 2, 3] {
        for day in [date(2024, 3, 5), date(2024, 3, 6), date(2024, 3, 7)] {
            assert_eq!(forward.get(UserID(user), day), backward.get(UserID(user), day));
        }
    }
    assert_eq!(forward.get(UserID(1), date(2024, 3, 5)), Some(103));
    assert_eq!(forward.get(UserID(2), date(2024, 3, 5)), Some(-4));
    assert_eq!(forward.get(UserID(1), date(2024, 3, 6)), Some(10));
    assert_eq!(forward.get(UserID(2), date(2024, 3, 6)), None);
}

#[test]
fn merging_out_of_range_is_an_error() {
    let day = date(2024, 3, 5);
    let mut ledger = Ledger::new();
    ledger.merge_upsert(&vec![entry(1, day, i64::MAX)]).unwrap();
    assert!(matches!(
        ledger.merge_upsert(&vec![entry(2, day, 1), entry(1, day, 1)]),
        Err(ArchiveError::AmountOverflow)
    ));
    ledger.merge_upsert(&vec![entry(1, day, -1)]).unwrap();
    assert_eq!(ledger.get(UserID(1), day), Some(i64::MAX - 1));
}

#[test]
fn newest_checkpoint_of_a_month() {
    let mut ledger = Ledger::new();
    assert_eq!(ledger.get_latest_checkpoint(date(2024, 3, 1)), None);
    ledger
        .merge_upsert(&vec![
            entry(1, date(2024, 3, 5), 1),
            entry(1, date(2024, 3, 17), 1),
            entry(2, date(2024, 3, 9), 1),
            entry(1, date(2024, 4, 2), 1),
            entry(1, date(2023, 3, 30), 1),
        ])
        .unwrap();
    assert_eq!(ledger.get_latest_checkpoint(date(2024, 3, 1)), Some(date(2024, 3, 17)));
    assert_eq!(ledger.get_latest_checkpoint(date(2024, 3, 31)), Some(date(2024, 3, 17)));
    assert_eq!(ledger.get_latest_checkpoint(date(2024, 4, 1)), Some(date(2024, 4, 2)));
    assert_eq!(ledger.get_latest_checkpoint(date(2023, 3, 1)), Some(date(2023, 3, 30)));
    assert_eq!(ledger.get_latest_checkpoint(date(2024, 2, 1)), None);
}
