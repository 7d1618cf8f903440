use bet_archiver::calendar::{Date, Timestamp};
use bet_archiver::enums::{BetStatus, PositionEnum};
use bet_archiver::error::ArchiveError;
use bet_archiver::ledger::{Ledger, LedgerEntry};
use bet_archiver::provider::{GameProvider, SlotProvider};
use bet_archiver::records::{Bet, User, UserInfo};
use bet_archiver::rollforward::create_opening_balance_records;
use bet_archiver::settlement::{handle_bet_chunk, ledger_updates, uplines_to_fetch};
use bet_archiver::state::State;
use bet_archiver::types::{
    BetID, Currency, ProviderBetID, ProviderGameVendorID, ProviderGameVendorLabel, UserID, Username,
};

const OWNER: u128 = 100;
const AGENT: u128 = 500;
const PLAYER: u128 = 600;
const CASH_PLAYER: u128 = 700;

fn date(year: i32, month: u8, day: u8) -> Date {
    Date::from_calendar_date(year, month, day).unwrap()
}

fn bet(id: u128, user: u128, changed: Timestamp, wl: i64) -> Bet {
    Bet {
        id: BetID(id),
        creation_date: changed,
        last_status_change: changed,
        stake: 2,
        valid_amount: Some(2),
        wl: Some(wl),
        user_id: UserID(user),
        username: Username(format!("user-{user}")),
        ip: "127.0.0.1".to_string(),
        status: BetStatus::Closed,
        currency: Currency("THB".to_string()),
        pt_by_position: [0, 0, 0, 0, 0, 0, 1],
        commission_percent: [0, 1, 2, 3, 4, 5, 6],
        commission_amount: [0, 0, 0, 0, 0, 100, 0],
        funds_delta: [0, 0, 0, 0, 0, -20, 0],
        details: None,
        replay: String::new(),
        transaction_ids: vec![],
        transactions: vec![],
        provider_bet_id: ProviderBetID("7".to_string()),
        provider_game_vendor_id: ProviderGameVendorID("game".to_string()),
        provider_game_vendor_label: ProviderGameVendorLabel("Game".to_string()),
    }
}

fn member(id: u128, position: PositionEnum) -> User {
    User { id: UserID(id), username: Username(format!("user-{id}")), position }
}

#[test]
fn one_bet_of_a_credit_player_from_ledger_to_ledger() {
    let today = date(2024, 3, 6);
    let settlement_day = date(2024, 3, 5);

    let mut balances = Ledger::new();
    balances
        .merge_upsert(&vec![
            LedgerEntry { user_id: UserID(PLAYER), day: date(2024, 3, 3), amount: 1000 },
            LedgerEntry { user_id: UserID(CASH_PLAYER), day: date(2024, 3, 3), amount: 50 },
        ])
        .unwrap();
    let mut debts = Ledger::new();
    let mut state = State::new();
    let players = vec![
        UserInfo { user_id: UserID(PLAYER), is_credit: true },
        UserInfo { user_id: UserID(CASH_PLAYER), is_credit: false },
    ];

    create_opening_balance_records(&mut balances, &players, &mut state, today).unwrap();
    for day in [date(2024, 3, 4), settlement_day, today, date(2024, 3, 7)] {
        assert_eq!(balances.get(UserID(PLAYER), day), Some(1000));
        assert_eq!(balances.get(UserID(CASH_PLAYER), day), Some(50));
    }

    let mut table = vec![
        bet(1, PLAYER, Timestamp::new(date(2024, 3, 4), 3, 0, 0, 0).unwrap(), 35),
        bet(2, CASH_PLAYER, Timestamp::new(date(2024, 3, 4), 9, 30, 0, 0).unwrap(), -5),
    ];
    let chunk: Vec<Bet> = table.drain(..).collect();
    for owner in uplines_to_fetch(&chunk, &state) {
        let upline = if owner == UserID(PLAYER) {
            vec![
                member(OWNER, PositionEnum::Owner),
                member(AGENT, PositionEnum::Agent),
                member(PLAYER, PositionEnum::Player),
            ]
        } else {
            vec![member(OWNER, PositionEnum::Owner), member(CASH_PLAYER, PositionEnum::Player)]
        };
        state.set_upline(owner, upline);
    }
    let plan = handle_bet_chunk(GameProvider::Slot(SlotProvider::Ameba), chunk, &mut state).unwrap();

    for (day, rows) in &plan.debts {
        let entries: Vec<LedgerEntry> = rows
            .iter()
            .map(|r| LedgerEntry { user_id: r.user_id, day: *day, amount: r.debt_amount })
            .collect();
        debts.merge_upsert(&entries).unwrap();
    }
    for update in ledger_updates(&plan.wl_by_date_by_user, today) {
        balances.update_opening_balance_amount(update.month, update.day, &update.amounts).unwrap();
    }

    assert_eq!(debts.get(UserID(AGENT), settlement_day), Some(80));
    assert_eq!(debts.get(UserID(OWNER), settlement_day), Some(0));
    assert_eq!(debts.get(UserID(PLAYER), settlement_day), Some(0));
    assert_eq!(debts.get(UserID(CASH_PLAYER), settlement_day), None);
    assert_eq!(debts.get(UserID(AGENT), today), None);
    assert_eq!(debts.get(UserID(400), settlement_day), None);

    assert_eq!(plan.bet_ids.as_slice(), &[1, 2]);
    assert!(table.is_empty());

    assert_eq!(balances.get(UserID(PLAYER), date(2024, 3, 3)), Some(1000));
    assert_eq!(balances.get(UserID(PLAYER), date(2024, 3, 4)), Some(1000));
    assert_eq!(balances.get(UserID(PLAYER), settlement_day), Some(1035));
    assert_eq!(balances.get(UserID(PLAYER), today), Some(1035));
    assert_eq!(balances.get(UserID(PLAYER), date(2024, 3, 7)), Some(1035));
    assert_eq!(balances.get(UserID(CASH_PLAYER), date(2024, 3, 4)), Some(50));
    assert_eq!(balances.get(UserID(CASH_PLAYER), settlement_day), Some(45));
    assert_eq!(balances.get(UserID(CASH_PLAYER), date(2024, 3, 7)), Some(45));
}

#[test]
fn updates_touch_only_rows_within_reach() {
    let mut ledger = Ledger::new();
    ledger
        .merge_upsert(&vec![
            LedgerEntry { user_id: UserID(1), day: date(2024, 2, 29), amount: 10 },
            LedgerEntry { user_id: UserID(1), day: date(2024, 3, 4), amount: 10 },
            LedgerEntry { user_id: UserID(1), day: date(2024, 3, 5), amount: 10 },
            LedgerEntry { user_id: UserID(2), day: date(2024, 3, 6), amount: 10 },
            LedgerEntry { user_id: UserID(1), day: date(2024, 3, 31), amount: 10 },
            LedgerEntry { user_id: UserID(1), day: date(2024, 4, 1), amount: 10 },
            LedgerEntry { user_id: UserID(1), day: date(2025, 3, 9), amount: 10 },
        ])
        .unwrap();
    ledger
        .update_opening_balance_amount(date(2024, 3, 1), date(2024, 3, 5), &vec![(UserID(1), 7), (UserID(3), 1)])
        .unwrap();
    assert_eq!(ledger.get(UserID(1), date(2024, 2, 29)), Some(10));
    assert_eq!(ledger.get(UserID(1), date(2024, 3, 4)), Some(10));
    assert_eq!(ledger.get(UserID(1), date(2024, 3, 5)), Some(17));
    assert_eq!(ledger.get(UserID(1), date(2024, 3, 6)), None);
    assert_eq!(ledger.get(UserID(2), date(2024, 3, 6)), Some(10));
    assert_eq!(ledger.get(UserID(3), date(2024, 3, 6)), None);
    assert_eq!(ledger.get(UserID(1), date(2024, 3, 31)), Some(17));
    assert_eq!(ledger.get(UserID(1), date(2024, 4, 1)), Some(10));
    assert_eq!(ledger.get(UserID(1), date(2025, 3, 9)), Some(10));
    ledger
        .update_opening_balance_amount(date(2024, 3, 1), date(2024, 3, 5), &vec![(UserID(1), 1), (UserID(1), 2)])
        .unwrap();
    assert_eq!(ledger.get(UserID(1), date(2024, 3, 5)), Some(20));
    assert!(matches!(
        ledger.update_opening_balance_amount(date(2024, 3, 1), date(2024, 3, 5), &vec![(UserID(1), i64::MAX)]),
        Err(ArchiveError::AmountOverflow)
    ));
    assert!(ledger
        .update_opening_balance_amount(date(2024, 5, 1), date(2024, 3, 5), &vec![(UserID(1), i64::MAX)])
        .is_ok());
}
