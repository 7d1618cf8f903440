use bet_archiver::calendar::{get_hong_kong_11_hours_from_date, Date, Timestamp};
use bet_archiver::debts::{calculate_debt_by_bet, create_credit_debt_models, DebtsByDate, UserDebts};
use bet_archiver::enums::{BetStatus, PositionEnum};
use bet_archiver::error::ArchiveError;
use bet_archiver::keyed::KeyedList;
use bet_archiver::provider::{GameProvider, Lottery, SlotProvider};
use bet_archiver::records::{Bet, RawBet, User};
use bet_archiver::settlement::{
    handle_bet_chunk, ledger_updates, tally_win_loss, uplines_to_fetch, WlByDateByUser,
};
use bet_archiver::state::State;
use bet_archiver::types::{
    BetID, Currency, ProviderBetID, ProviderGameVendorID, ProviderGameVendorLabel, UserID, Username,
};

const PLAYER: u128 = 600;
const OWNER: u128 = 100;
const AGENT: u128 = 500;

fn date(year: i32, month: u8, day: u8) -> Date {
    Date::from_calendar_date(year, month, day).unwrap()
}

fn at(year: i32, month: u8, day: u8, hour: u8) -> Timestamp {
    Timestamp::new(date(year, month, day), hour, 0, 0, 0).unwrap()
}

fn bet(id: u128, user: u128, changed: Timestamp, commission: [i64; 7], funds: [i64; 7], wl: Option<i64>) -> Bet {
    Bet {
        id: BetID(id),
        creation_date: changed,
        last_status_change: changed,
        stake: 2,
        valid_amount: Some(2),
        wl,
        user_id: UserID(user),
        username: Username(format!("user-{user}")),
        ip: "127.0.0.1".to_string(),
        status: BetStatus::Closed,
        currency: Currency("THB".to_string()),
        pt_by_position: [0, 0, 0, 0, 0, 0, 1],
        commission_percent: [0, 1, 2, 3, 4, 5, 6],
        commission_amount: commission,
        funds_delta: funds,
        details: None,
        replay: String::new(),
        transaction_ids: vec!["1".to_string(), "2".to_string()],
        transactions: vec![],
        provider_bet_id: ProviderBetID("7".to_string()),
        provider_game_vendor_id: ProviderGameVendorID("game".to_string()),
        provider_game_vendor_label: ProviderGameVendorLabel("Game".to_string()),
    }
}

fn member(id: u128, position: PositionEnum) -> User {
    User { id: UserID(id), username: Username(format!("user-{id}")), position }
}

fn upline_of_player() -> Vec<User> {
    vec![
        member(OWNER, PositionEnum::Owner),
        member(AGENT, PositionEnum::Agent),
        member(PLAYER, PositionEnum::Player),
    ]
}

fn credit_state() -> State {
    let mut state = State::new();
    state.add_credit_player(UserID(PLAYER));
    state.set_upline(UserID(PLAYER), upline_of_player());
    state
}

fn amounts(debts: &UserDebts) -> Vec<(u128, i64, String)> {
    (0..debts.len())
        .map(|i| (debts.key_at(i), debts.value_at(i).amount, debts.value_at(i).currency.0.clone()))
        .collect()
}

#[test]
fn agent_is_owed_commission_and_funds_on_the_settlement_day() {
    let mut state = credit_state();
    let chunk = vec![bet(
        1,
        PLAYER,
        at(2024, 3, 4, 10),
        [0, 0, 0, 0, 0, 100, 0],
        [0, 0, 0, 0, 0, -20, 0],
        Some(35),
    )];
    let plan = handle_bet_chunk(GameProvider::Slot(SlotProvider::Ameba), chunk, &mut state).unwrap();

    assert_eq!(plan.bet_table, "bet_ameba");
    assert_eq!(plan.bet_ids.as_slice(), &[1]);
    assert_eq!(plan.debts.len(), 1);
    let (day, rows) = &plan.debts[0];
    assert_eq!(*day, date(2024, 3, 5));
    let owed: Vec<(u128, i64)> = rows.iter().map(|r| (r.user_id.0, r.debt_amount)).collect();
    assert_eq!(owed, vec![(OWNER, 0), (AGENT, 80), (PLAYER, 0)]);
    for row in rows {
        assert_eq!(row.date, get_hong_kong_11_hours_from_date(date(2024, 3, 5)));
        assert_eq!(row.currency.0, "THB");
        assert_eq!(row.username.0, format!("user-{}", row.user_id.0));
    }
    assert_ne!(rows[0].id, rows[1].id);

    let wl = &plan.wl_by_date_by_user;
    assert_eq!(wl.len(), 1);
    assert_eq!(wl.key_at(0), date(2024, 3, 5));
    assert_eq!(wl.value_at(0).len(), 1);
    assert_eq!(wl.value_at(0).key_at(0), PLAYER);
    assert_eq!(*wl.value_at(0).value_at(0), 35);
}

#[test]
fn each_rank_gets_its_own_sum() {
    let mut state = State::new();
    state.add_credit_player(UserID(PLAYER));
    state.set_upline(
        UserID(PLAYER),
        vec![
            member(10, PositionEnum::Owner),
            member(11, PositionEnum::Company),
            member(12, PositionEnum::Shareholder),
            member(13, PositionEnum::Senior),
            member(14, PositionEnum::MasterAgent),
            member(15, PositionEnum::Agent),
            member(PLAYER, PositionEnum::Player),
        ],
    );
    let mut figures: UserDebts = KeyedList::new();
    let one = bet(1, PLAYER, at(2024, 3, 4, 10), [1, 2, 3, 4, 5, 6, 7], [10, 20, 30, 40, 50, 60, 70], None);
    calculate_debt_by_bet(&one, &mut figures, &mut state).unwrap();
    let owed: Vec<(u128, i64)> = amounts(&figures).into_iter().map(|(u, a, _)| (u, a)).collect();
    assert_eq!(
        owed,
        vec![(10, 11), (11, 22), (12, 33), (13, 44), (14, 55), (15, 66), (PLAYER, 77)]
    );
    calculate_debt_by_bet(&one, &mut figures, &mut state).unwrap();
    let owed: Vec<(u128, i64)> = amounts(&figures).into_iter().map(|(u, a, _)| (u, a)).collect();
    assert_eq!(
        owed,
        vec![(10, 22), (11, 44), (12, 66), (13, 88), (14, 110), (15, 132), (PLAYER, 154)]
    );
    assert!(state.username_by_user_id.contains_key(&13));
}

#[test]
fn first_currency_of_a_total_stays() {
    let mut state = credit_state();
    let mut figures: UserDebts = KeyedList::new();
    let mut first = bet(1, PLAYER, at(2024, 3, 4, 10), [1; 7], [0; 7], None);
    first.currency = Currency("THB".to_string());
    let mut second = bet(2, PLAYER, at(2024, 3, 4, 11), [1; 7], [0; 7], None);
    second.currency = Currency("USD".to_string());
    calculate_debt_by_bet(&first, &mut figures, &mut state).unwrap();
    calculate_debt_by_bet(&second, &mut figures, &mut state).unwrap();
    assert_eq!(
        amounts(&figures),
        vec![
            (OWNER, 2, "THB".to_string()),
            (AGENT, 2, "THB".to_string()),
            (PLAYER, 2, "THB".to_string()),
        ]
    );
}

#[test]
fn bet_of_another_player_is_passed_over() {
    let mut state = State::new();
    state.set_upline(UserID(700), vec![member(OWNER, PositionEnum::Owner), member(700, PositionEnum::Player)]);
    let mut figures: UserDebts = KeyedList::new();
    let cash = bet(1, 700, at(2024, 3, 4, 10), [9; 7], [9; 7], Some(3));
    calculate_debt_by_bet(&cash, &mut figures, &mut state).unwrap();
    assert_eq!(figures.len(), 0);
    assert!(state.username_by_user_id.is_empty());
    let unknown = bet(2, 701, at(2024, 3, 4, 10), [i64::MAX; 7], [i64::MAX; 7], None);
    calculate_debt_by_bet(&unknown, &mut figures, &mut state).unwrap();
    assert_eq!(figures.len(), 0);

    let mut state = credit_state();
    let mut figures: UserDebts = KeyedList::new();
    let credit = bet(3, PLAYER, at(2024, 3, 4, 10), [1; 7], [1; 7], None);
    calculate_debt_by_bet(&credit, &mut figures, &mut state).unwrap();
    let before = amounts(&figures);
    calculate_debt_by_bet(&cash, &mut figures, &mut state).unwrap();
    assert_eq!(amounts(&figures), before);
    assert_eq!(before.len(), 3);
}

#[test]
fn bet_without_upline_is_an_error() {
    let mut state = State::new();
    state.add_credit_player(UserID(PLAYER));
    let mut figures: UserDebts = KeyedList::new();
    let one = bet(1, PLAYER, at(2024, 3, 4, 10), [1; 7], [1; 7], None);
    match calculate_debt_by_bet(&one, &mut figures, &mut state) {
        Err(ArchiveError::UplineNotFound { user_id }) => assert_eq!(user_id, UserID(PLAYER)),
        other => panic!("unexpected: {:?}", other),
    }
    assert_eq!(figures.len(), 0);
    let chunk = vec![bet(1, PLAYER, at(2024, 3, 4, 10), [1; 7], [1; 7], None)];
    match handle_bet_chunk(GameProvider::Slot(SlotProvider::Ameba), chunk, &mut state) {
        Err(ArchiveError::UplineNotFound { user_id }) => assert_eq!(user_id, UserID(PLAYER)),
        other => panic!("unexpected: {:?}", other.map(|p| p.bet_ids)),
    }
}

#[test]
fn amounts_out_of_range_are_an_error() {
    let mut state = credit_state();
    let mut figures: UserDebts = KeyedList::new();
    let huge = bet(1, PLAYER, at(2024, 3, 4, 10), [i64::MAX; 7], [1; 7], None);
    assert!(matches!(
        calculate_debt_by_bet(&huge, &mut figures, &mut state),
        Err(ArchiveError::AmountOverflow)
    ));
    let mut figures: UserDebts = KeyedList::new();
    let big = bet(2, PLAYER, at(2024, 3, 4, 10), [i64::MAX; 7], [0; 7], None);
    calculate_debt_by_bet(&big, &mut figures, &mut state).unwrap();
    let one = bet(3, PLAYER, at(2024, 3, 4, 10), [1; 7], [0; 7], None);
    assert!(matches!(
        calculate_debt_by_bet(&one, &mut figures, &mut state),
        Err(ArchiveError::AmountOverflow)
    ));
    let mut wl: WlByDateByUser = KeyedList::new();
    tally_win_loss(&mut wl, date(2024, 3, 5), UserID(1), i64::MIN).unwrap();
    assert!(matches!(
        tally_win_loss(&mut wl, date(2024, 3, 5), UserID(1), -1),
        Err(ArchiveError::AmountOverflow)
    ));
    tally_win_loss(&mut wl, date(2024, 3, 5), UserID(1), 1).unwrap();
    assert_eq!(*wl.value_at(0).value_at(0), i64::MIN + 1);
}

#[test]
fn bet_on_the_last_date_is_an_error() {
    let mut state = credit_state();
    let chunk = vec![bet(1, PLAYER, at(9999, 12, 31, 3), [0; 7], [0; 7], None)];
    assert!(matches!(
        handle_bet_chunk(GameProvider::Slot(SlotProvider::Ameba), chunk, &mut state),
        Err(ArchiveError::DateOutOfRange)
    ));
}

#[test]
fn other_players_book_no_debt() {
    let mut state = credit_state();
    let chunk = vec![
        bet(1, 700, at(2024, 3, 4, 10), [5; 7], [5; 7], Some(10)),
        bet(2, 701, at(2024, 3, 4, 2), [5; 7], [5; 7], None),
    ];
    let plan = handle_bet_chunk(GameProvider::Lottery(Lottery::Thai), chunk, &mut state).unwrap();
    assert!(plan.debts.is_empty());
    assert_eq!(plan.bet_table, "bet_lottery");
    assert_eq!(plan.bet_ids.as_slice(), &[1, 2]);
    let wl = &plan.wl_by_date_by_user;
    assert_eq!(wl.len(), 2);
    assert_eq!(wl.key_at(0), date(2024, 3, 5));
    assert_eq!((wl.value_at(0).key_at(0), *wl.value_at(0).value_at(0)), (700, 10));
    assert_eq!(wl.key_at(1), date(2024, 3, 4));
    assert_eq!((wl.value_at(1).key_at(0), *wl.value_at(1).value_at(0)), (701, 0));
    assert_eq!(state.username_by_user_id.get(&700).unwrap().0, "user-700");
}

#[test]
fn bets_are_bucketed_by_settlement_day() {
    let mut state = credit_state();
    let chunk = vec![
        bet(1, PLAYER, at(2024, 3, 4, 2), [0, 0, 0, 0, 0, 1, 0], [0; 7], Some(1)),
        bet(2, PLAYER, at(2024, 3, 4, 3), [0, 0, 0, 0, 0, 10, 0], [0; 7], Some(2)),
        bet(3, PLAYER, at(2024, 3, 3, 23), [0, 0, 0, 0, 0, 100, 0], [0; 7], Some(4)),
        bet(4, PLAYER, at(2024, 3, 5, 1), [0, 0, 0, 0, 0, 1000, 0], [0; 7], Some(8)),
    ];
    let plan = handle_bet_chunk(GameProvider::Slot(SlotProvider::Ameba), chunk, &mut state).unwrap();
    assert_eq!(plan.bet_ids.as_slice(), &[1, 2, 3, 4]);
    assert_eq!(plan.debts.len(), 2);
    assert_eq!(plan.debts[0].0, date(2024, 3, 4));
    assert_eq!(plan.debts[1].0, date(2024, 3, 5));
    let agent = |rows: &Vec<bet_archiver::records::CreditDebt>| {
        rows.iter().find(|r| r.user_id.0 == AGENT).unwrap().debt_amount
    };
    assert_eq!(agent(&plan.debts[0].1), 101);
    assert_eq!(agent(&plan.debts[1].1), 1010);
    let wl = &plan.wl_by_date_by_user;
    assert_eq!(wl.key_at(0), date(2024, 3, 4));
    assert_eq!(*wl.value_at(0).value_at(0), 5);
    assert_eq!(wl.key_at(1), date(2024, 3, 5));
    assert_eq!(*wl.value_at(1).value_at(0), 10);
}

#[test]
fn chunk_of_full_size_is_settled_and_a_larger_one_refused() {
    let mut state = credit_state();
    let full: Vec<Bet> = (0..1500u128)
        .map(|i| bet(i, 700, at(2024, 3, 4, 10), [0; 7], [0; 7], Some(1)))
        .collect();
    let plan = handle_bet_chunk(GameProvider::Slot(SlotProvider::Ameba), full, &mut state).unwrap();
    assert_eq!(plan.bet_ids.len(), 1500);
    assert_eq!(plan.bet_ids[1499], 1499);
    assert_eq!(*plan.wl_by_date_by_user.value_at(0).value_at(0), 1500);
    let too_many: Vec<Bet> = (0..1501u128)
        .map(|i| bet(i, 700, at(2024, 3, 4, 10), [0; 7], [0; 7], Some(1)))
        .collect();
    match handle_bet_chunk(GameProvider::Slot(SlotProvider::Ameba), too_many, &mut state) {
        Err(ArchiveError::ChunkTooLarge) => {}
        other => panic!("unexpected: {:?}", other.map(|p| p.bet_ids)),
    }
}

#[test]
fn empty_chunk_plans_nothing() {
    let mut state = credit_state();
    let plan = handle_bet_chunk(GameProvider::Slot(SlotProvider::PG), Vec::new(), &mut state).unwrap();
    assert!(plan.bet_ids.is_empty());
    assert!(plan.debts.is_empty());
    assert_eq!(plan.wl_by_date_by_user.len(), 0);
    assert_eq!(plan.bet_table, "bet_pg_slot");
}

#[test]
fn debt_rows_need_a_name() {
    let mut state = State::new();
    let mut figures: DebtsByDate = KeyedList::new();
    let place = figures.place_for(date(2024, 3, 5));
    figures.value_at_mut(place).push(
        42,
        bet_archiver::records::CurrencyAmount { currency: Currency("THB".to_string()), amount: 9 },
    );
    match create_credit_debt_models(figures, &state) {
        Err(ArchiveError::UsernameNotFound { user_id }) => assert_eq!(user_id, UserID(42)),
        other => panic!("unexpected: {:?}", other),
    }
    state.remember_username(UserID(42), &Username("forty-two".to_string()));
    state.remember_username(UserID(42), &Username("later".to_string()));
    let mut figures: DebtsByDate = KeyedList::new();
    let place = figures.place_for(date(2024, 3, 5));
    figures.value_at_mut(place).push(
        42,
        bet_archiver::records::CurrencyAmount { currency: Currency("THB".to_string()), amount: 9 },
    );
    let models = create_credit_debt_models(figures, &state).unwrap();
    assert_eq!(models.len(), 1);
    assert_eq!(models[0].1[0].username.0, "forty-two");
    assert_eq!(models[0].1[0].debt_amount, 9);
}

#[test]
fn uplines_are_fetched_once_per_owner() {
    let state = credit_state();
    let chunk = vec![
        bet(1, 700, at(2024, 3, 4, 10), [0; 7], [0; 7], None),
        bet(2, PLAYER, at(2024, 3, 4, 10), [0; 7], [0; 7], None),
        bet(3, 701, at(2024, 3, 4, 10), [0; 7], [0; 7], None),
        bet(4, 700, at(2024, 3, 4, 10), [0; 7], [0; 7], None),
    ];
    assert_eq!(uplines_to_fetch(&chunk, &state), vec![UserID(700), UserID(701)]);
    assert!(uplines_to_fetch(&Vec::new(), &state).is_empty());
}

#[test]
fn wins_and_losses_reach_every_month_through_the_current() {
    let mut wl: WlByDateByUser = KeyedList::new();
    tally_win_loss(&mut wl, date(2024, 1, 31), UserID(1), 5).unwrap();
    tally_win_loss(&mut wl, date(2024, 3, 5), UserID(2), -7).unwrap();
    tally_win_loss(&mut wl, date(2024, 1, 31), UserID(3), 2).unwrap();
    let plan = ledger_updates(&wl, date(2024, 3, 20));
    let seen: Vec<(String, String, Date, Vec<(UserID, i64)>)> = plan
        .iter()
        .map(|u| (u.partition.schema.clone(), u.partition.table.clone(), u.day, u.amounts.clone()))
        .collect();
    let january = vec![(UserID(1), 5), (UserID(3), 2)];
    assert_eq!(
        seen,
        vec![
            ("archive_2024".to_string(), "opening_balance_2024_01".to_string(), date(2024, 1, 31), january.clone()),
            ("archive_2024".to_string(), "opening_balance_2024_02".to_string(), date(2024, 1, 31), january.clone()),
            ("archive_2024".to_string(), "opening_balance_2024_03".to_string(), date(2024, 1, 31), january),
            ("archive_2024".to_string(), "opening_balance_2024_03".to_string(), date(2024, 3, 5), vec![(UserID(2), -7)]),
        ]
    );
    assert_eq!(plan[0].from, get_hong_kong_11_hours_from_date(date(2024, 1, 31)));
    assert_eq!(plan[0].month, date(2024, 1, 1));
    let ahead = ledger_updates(&wl, date(2023, 12, 1));
    assert_eq!(ahead.len(), 2);
    assert_eq!(ahead[0].partition.table, "opening_balance_2024_01");
    assert_eq!(ahead[1].partition.table, "opening_balance_2024_03");
}

#[test]
fn raw_bet_becomes_a_bet() {
    let one = bet(9, PLAYER, at(2024, 3, 4, 10), [1, 2, 3, 4, 5, 6, 7], [7, 6, 5, 4, 3, 2, 1], Some(3));
    let raw = RawBet {
        id: one.id,
        creation_date: one.creation_date,
        last_status_change: one.last_status_change,
        stake: one.stake,
        valid_amount: one.valid_amount,
        wl: one.wl,
        user_id: one.user_id,
        username: one.username.clone(),
        ip: one.ip.clone(),
        status: "VOID".to_string(),
        currency: one.currency.clone(),
        pt_by_position: one.pt_by_position,
        commission_percent: one.commission_percent,
        commission_amount: one.commission_amount,
        funds_delta: one.funds_delta,
        details: Some("d".to_string()),
        replay: "r".to_string(),
        transaction_ids: one.transaction_ids.clone(),
        transactions: vec!["t".to_string()],
        provider_bet_id: one.provider_bet_id.clone(),
        provider_game_vendor_id: one.provider_game_vendor_id.clone(),
        provider_game_vendor_label: one.provider_game_vendor_label.clone(),
    };
    let read = raw.try_into_bet().unwrap();
    assert_eq!(read.status, BetStatus::Void);
    assert_eq!(read.id, BetID(9));
    assert_eq!(read.commission_amount, [1, 2, 3, 4, 5, 6, 7]);
    assert_eq!(read.funds_delta, [7, 6, 5, 4, 3, 2, 1]);
    assert_eq!(read.details, Some("d".to_string()));
    assert_eq!(read.transactions, vec!["t".to_string()]);
    assert_eq!(read.username.0, "user-600");
    assert_eq!(read.wl, Some(3));
}

#[test]
fn raw_bet_with_unknown_status_is_an_error() {
    let one = bet(9, PLAYER, at(2024, 3, 4, 10), [0; 7], [0; 7], None);
    let raw = RawBet {
        id: one.id,
        creation_date: one.creation_date,
        last_status_change: one.last_status_change,
        stake: one.stake,
        valid_amount: one.valid_amount,
        wl: one.wl,
        user_id: one.user_id,
        username: one.username,
        ip: one.ip,
        status: "LOST".to_string(),
        currency: one.currency,
        pt_by_position: one.pt_by_position,
        commission_percent: one.commission_percent,
        commission_amount: one.commission_amount,
        funds_delta: one.funds_delta,
        details: None,
        replay: one.replay,
        transaction_ids: one.transaction_ids,
        transactions: one.transactions,
        provider_bet_id: one.provider_bet_id,
        provider_game_vendor_id: one.provider_game_vendor_id,
        provider_game_vendor_label: one.provider_game_vendor_label,
    };
    match raw.try_into_bet() {
        Err(ArchiveError::InvalidStatus { status }) => assert_eq!(status, "LOST"),
        other => panic!("unexpected: {:?}", other.map(|b| b.id)),
    }
}

#[test]
fn state_registers_credit_players() {
    let mut state = State::new();
    assert!(!state.is_credit_player(UserID(1)));
    state.add_credit_player(UserID(1));
    assert!(state.is_credit_player(UserID(1)));
    assert!(!state.is_credit_player(UserID(2)));
    assert!(!state.has_upline(UserID(1)));
    state.set_upline(UserID(1), upline_of_player());
    assert!(state.has_upline(UserID(1)));
    assert_eq!(state.upline.get(&1).unwrap().len(), 3);
}
