use bet_archiver::calendar::{get_hong_kong_11_hours_from_date, Date};
use bet_archiver::error::ArchiveError;
use bet_archiver::opening_balance::{
    carry_forward, checkpoint_answered, checkpoint_probe, is_last_page, pending_days,
    register_players, roll_page_forward, CheckpointSearch, FLOOR_YEAR, PLAYERS_PAGE_SIZE,
};
use bet_archiver::records::{OpeningBalance, UserInfo};
use bet_archiver::state::State;
use bet_archiver::types::UserID;

fn date(year: i32, month: u8, day: u8) -> Date {
    Date::from_calendar_date(year, month, day).unwrap()
}

fn record(id: u128, user: u128, amount: i64, day: Date) -> OpeningBalance {
    OpeningBalance {
        id,
        amount,
        creation_date: get_hong_kong_11_hours_from_date(day),
        user_id: UserID(user),
    }
}

#[test]
fn search_asks_the_partition_of_the_month() {
    let partition = checkpoint_probe(date(2024, 3, 1)).unwrap();
    assert_eq!(partition.schema, "archive_2024");
    assert_eq!(partition.table, "opening_balance_2024_03");
    let partition = checkpoint_probe(date(2021, 1, 1)).unwrap();
    assert_eq!(partition.table, "opening_balance_2021_01");
}

#[test]
fn search_gives_up_at_the_floor() {
    assert_eq!(FLOOR_YEAR, 2020);
    assert!(matches!(checkpoint_probe(date(2020, 12, 1)), Err(ArchiveError::NoOpeningBalance)));
    assert!(matches!(checkpoint_probe(date(2020, 1, 1)), Err(ArchiveError::NoOpeningBalance)));
    assert!(matches!(checkpoint_probe(date(1999, 6, 1)), Err(ArchiveError::NoOpeningBalance)));
    let failure = checkpoint_probe(date(2020, 12, 1)).unwrap_err();
    assert_eq!(failure.message(), "We don't have opening balance records prior this date");
}

#[test]
fn search_walks_back_month_by_month() {
    assert_eq!(
        checkpoint_answered(date(2024, 3, 1), Some(date(2024, 3, 17))),
        CheckpointSearch::Found(date(2024, 3, 17))
    );
    assert_eq!(
        checkpoint_answered(date(2024, 3, 1), None),
        CheckpointSearch::Probe(date(2024, 2, 1))
    );
    assert_eq!(
        checkpoint_answered(date(2024, 1, 1), None),
        CheckpointSearch::Probe(date(2023, 12, 1))
    );
    let mut month = date(2022, 2, 1);
    let mut asked = 0;
    while checkpoint_probe(month).is_ok() {
        asked += 1;
        month = match checkpoint_answered(month, None) {
            CheckpointSearch::Probe(earlier) => earlier,
            CheckpointSearch::Found(_) => unreachable!(),
        };
    }
    assert_eq!(asked, 14);
    assert_eq!(month, date(2020, 12, 1));
}

#[test]
fn pending_days_run_through_tomorrow() {
    assert_eq!(
        pending_days(date(2024, 2, 27), date(2024, 3, 2)),
        vec![date(2024, 2, 28), date(2024, 2, 29), date(2024, 3, 1), date(2024, 3, 2)]
    );
    assert_eq!(pending_days(date(2023, 12, 31), date(2024, 1, 1)), vec![date(2024, 1, 1)]);
}

#[test]
fn current_ledger_has_no_pending_days() {
    assert!(pending_days(date(2024, 3, 2), date(2024, 3, 2)).is_empty());
    assert!(pending_days(date(2024, 3, 3), date(2024, 3, 2)).is_empty());
    assert!(pending_days(date(9999, 12, 31), date(9999, 12, 31)).is_empty());
}

#[test]
fn second_roll_forward_writes_nothing() {
    let tomorrow = date(2024, 3, 2);
    let first = pending_days(date(2024, 2, 27), tomorrow);
    let last_written = *first.last().unwrap();
    assert_eq!(last_written, tomorrow);
    assert!(pending_days(last_written, tomorrow).is_empty());
    let records = vec![record(1, 10, 5, last_written)];
    assert!(roll_page_forward(&records, last_written, tomorrow).is_empty());
}

#[test]
fn records_are_carried_forward_unchanged() {
    let last = date(2024, 2, 28);
    let records = vec![record(1, 10, 500, last), record(2, 11, -30, last), record(3, 12, 0, last)];
    let rows = carry_forward(&records, date(2024, 2, 29));
    assert_eq!(rows.len(), 3);
    for (row, record) in rows.iter().zip(records.iter()) {
        assert_eq!(row.user_id, record.user_id);
        assert_eq!(row.amount, record.amount);
        assert_eq!(row.creation_date, get_hong_kong_11_hours_from_date(date(2024, 2, 29)));
        assert_ne!(row.id, record.id);
    }
    assert_ne!(rows[0].id, rows[1].id);
    assert!(carry_forward(&Vec::new(), date(2024, 2, 29)).is_empty());
}

#[test]
fn page_is_rolled_into_the_partition_of_each_day() {
    let last = date(2024, 2, 28);
    let records = vec![record(1, 10, 500, last), record(2, 11, -30, last)];
    let plan = roll_page_forward(&records, last, date(2024, 3, 1));
    let days: Vec<(Date, String, String)> = plan
        .iter()
        .map(|d| (d.day, d.partition.schema.clone(), d.partition.table.clone()))
        .collect();
    assert_eq!(
        days,
        vec![
            (date(2024, 2, 29), "archive_2024".to_string(), "opening_balance_2024_02".to_string()),
            (date(2024, 3, 1), "archive_2024".to_string(), "opening_balance_2024_03".to_string()),
        ]
    );
    for entry in &plan {
        let amounts: Vec<(UserID, i64)> = entry.rows.iter().map(|r| (r.user_id, r.amount)).collect();
        assert_eq!(amounts, vec![(UserID(10), 500), (UserID(11), -30)]);
        for row in &entry.rows {
            assert_eq!(row.creation_date, get_hong_kong_11_hours_from_date(entry.day));
        }
    }
}

#[test]
fn credit_players_of_a_page_are_registered() {
    let mut state = State::new();
    let page = vec![
        UserInfo { user_id: UserID(1), is_credit: false },
        UserInfo { user_id: UserID(2), is_credit: true },
        UserInfo { user_id: UserID(3), is_credit: true },
        UserInfo { user_id: UserID(4), is_credit: false },
    ];
    let ids = register_players(&page, &mut state);
    assert_eq!(ids, vec![UserID(1), UserID(2), UserID(3), UserID(4)]);
    assert!(!state.is_credit_player(UserID(1)));
    assert!(state.is_credit_player(UserID(2)));
    assert!(state.is_credit_player(UserID(3)));
    assert!(!state.is_credit_player(UserID(4)));
}

#[test]
fn short_page_is_the_last() {
    assert_eq!(PLAYERS_PAGE_SIZE, 2000);
    assert!(is_last_page(0, PLAYERS_PAGE_SIZE));
    assert!(is_last_page(1999, PLAYERS_PAGE_SIZE));
    assert!(!is_last_page(2000, PLAYERS_PAGE_SIZE));
    assert!(!is_last_page(2001, PLAYERS_PAGE_SIZE));
    assert!(!is_last_page(0, 0));
    assert!(!is_last_page(0, -1));
}
