use bet_archiver::calendar::{get_hong_kong_11_hours_from_date, Date, Timestamp};
use bet_archiver::details::{extend_bet_with_details, detail_connector, render_details, DetailReply};
use bet_archiver::connectors::Connector;
use bet_archiver::chunk::CHUNK_SIZE;
use bet_archiver::drain::{drain_cutoff, is_drainable, DrainAction, DrainState};
use bet_archiver::enums::BetStatus;
use bet_archiver::provider::{
    get_drained_providers, GameProvider, LiveCasinoProvider, OnlineCasinoProvider, SlotProvider,
};
use bet_archiver::records::Bet;
use bet_archiver::types::{
    BetID, Currency, ProviderBetID, ProviderGameVendorID, ProviderGameVendorLabel, Url, UserID,
    Username,
};

fn date(year: i32, month: u8, day: u8) -> Date {
    Date::from_calendar_date(year, month, day).unwrap()
}

fn bet(status: BetStatus, changed: Timestamp, details: Option<&str>) -> Bet {
    Bet {
        id: BetID(77),
        creation_date: changed,
        last_status_change: changed,
        stake: 2,
        valid_amount: None,
        wl: None,
        user_id: UserID(1),
        username: Username("one".to_string()),
        ip: String::new(),
        status,
        currency: Currency("THB".to_string()),
        pt_by_position: [0; 7],
        commission_percent: [0; 7],
        commission_amount: [0; 7],
        funds_delta: [0; 7],
        details: details.map(|d| d.to_string()),
        replay: String::new(),
        transaction_ids: vec![],
        transactions: vec![],
        provider_bet_id: ProviderBetID("7".to_string()),
        provider_game_vendor_id: ProviderGameVendorID("game".to_string()),
        provider_game_vendor_label: ProviderGameVendorLabel("Game".to_string()),
    }
}

#[test]
fn drain_goes_through_every_provider() {
    assert_eq!(CHUNK_SIZE, 1500);
    let providers = get_drained_providers();
    let mut state = DrainState::new();
    let mut fetched_from = Vec::new();
    let mut chunks_left = 2;
    loop {
        match state.next_action() {
            DrainAction::Finish => break,
            DrainAction::Fetch { provider, table } => {
                fetched_from.push((provider, table));
                let fetched = if chunks_left > 0 { 3 } else { 0 };
                if chunks_left > 0 {
                    chunks_left -= 1;
                }
                let settle = state.chunk_fetched(fetched);
                assert_eq!(settle, fetched > 0);
            }
        }
    }
    assert_eq!(fetched_from.len(), providers.len() + 2);
    assert_eq!(fetched_from[0].1, "bet_sexy");
    assert_eq!(fetched_from[1].0, providers[0]);
    assert_eq!(fetched_from[2].0, providers[0]);
    assert_eq!(fetched_from[3].0, providers[1]);
    assert_eq!(fetched_from.last().unwrap().0, *providers.last().unwrap());
    assert_eq!(fetched_from.last().unwrap().1, "bet_parlay");
    assert!(matches!(state.next_action(), DrainAction::Finish));
}

#[test]
fn empty_chunk_ends_a_provider() {
    let mut state = DrainState::new();
    let first = match state.next_action() {
        DrainAction::Fetch { provider, .. } => provider,
        DrainAction::Finish => panic!("nothing to drain"),
    };
    assert!(state.chunk_fetched(1500));
    match state.next_action() {
        DrainAction::Fetch { provider, .. } => assert_eq!(provider, first),
        DrainAction::Finish => panic!("finished early"),
    }
    assert!(!state.chunk_fetched(0));
    match state.next_action() {
        DrainAction::Fetch { provider, .. } => assert_ne!(provider, first),
        DrainAction::Finish => panic!("finished early"),
    }
}

#[test]
fn only_settled_bets_from_before_the_cutoff_are_drained() {
    let cutoff = drain_cutoff(date(2024, 3, 5)).unwrap();
    assert_eq!(cutoff, get_hong_kong_11_hours_from_date(date(2024, 3, 4)));
    let before = Timestamp::new(date(2024, 3, 4), 2, 59, 59, 999_999_999).unwrap();
    let at = Timestamp::new(date(2024, 3, 4), 3, 0, 0, 0).unwrap();
    assert!(is_drainable(&bet(BetStatus::Closed, before, None), cutoff, None));
    assert!(is_drainable(&bet(BetStatus::Void, before, None), cutoff, None));
    assert!(is_drainable(&bet(BetStatus::Cancelled, before, None), cutoff, None));
    assert!(is_drainable(&bet(BetStatus::Suspended, before, None), cutoff, None));
    assert!(!is_drainable(&bet(BetStatus::Active, before, None), cutoff, None));
    assert!(!is_drainable(&bet(BetStatus::Pending, before, None), cutoff, None));
    assert!(!is_drainable(&bet(BetStatus::Closed, at, None), cutoff, None));
    assert!(is_drainable(&bet(BetStatus::Closed, before, None), cutoff, Some(date(2024, 3, 4))));
    assert!(!is_drainable(&bet(BetStatus::Closed, before, None), cutoff, Some(date(2024, 3, 5))));
    assert_eq!(drain_cutoff(date(-9999, 1, 1)), None);
    assert_eq!(drain_cutoff(date(2024, 3, 1)), Some(get_hong_kong_11_hours_from_date(date(2024, 2, 29))));
}

#[test]
fn connectors_by_provider() {
    let changed = Timestamp::new(date(2024, 3, 4), 1, 0, 0, 0).unwrap();
    let plain = bet(BetStatus::Closed, changed, None);
    let detailed = bet(BetStatus::Closed, changed, Some("{}"));
    let connector = |b: &Bet, p: GameProvider| detail_connector(b, p);
    assert_eq!(connector(&plain, GameProvider::LiveCasino(LiveCasinoProvider::Sexy)), Some(Connector::Ae));
    assert_eq!(connector(&plain, GameProvider::LiveCasino(LiveCasinoProvider::Pragmatic)), Some(Connector::Pragmatic));
    assert_eq!(connector(&plain, GameProvider::Slot(SlotProvider::Pragmatic)), Some(Connector::Pragmatic));
    assert_eq!(connector(&detailed, GameProvider::Slot(SlotProvider::Pragmatic)), None);
    assert_eq!(connector(&detailed, GameProvider::LiveCasino(LiveCasinoProvider::Pragmatic)), None);
    assert_eq!(connector(&detailed, GameProvider::LiveCasino(LiveCasinoProvider::Sexy)), Some(Connector::Ae));
    assert_eq!(connector(&plain, GameProvider::Slot(SlotProvider::RoyalSlotGaming)), Some(Connector::RoyalSlotGaming));
    assert_eq!(connector(&plain, GameProvider::Slot(SlotProvider::Ameba)), Some(Connector::Ameba));
    assert_eq!(connector(&plain, GameProvider::OnlineCasino(OnlineCasinoProvider::Arcadia)), Some(Connector::Arcadia));
    assert_eq!(connector(&plain, GameProvider::OnlineCasino(OnlineCasinoProvider::Kingmaker)), Some(Connector::KingMaker));
    assert_eq!(connector(&plain, GameProvider::Slot(SlotProvider::Relax)), Some(Connector::DotConnections));
    assert_eq!(connector(&plain, GameProvider::Slot(SlotProvider::YGG)), Some(Connector::DotConnections));
    assert_eq!(connector(&plain, GameProvider::Slot(SlotProvider::Hacksaw)), Some(Connector::DotConnections));
    assert_eq!(connector(&plain, GameProvider::Slot(SlotProvider::PG)), None);
    assert_eq!(connector(&plain, GameProvider::LiveCasino(LiveCasinoProvider::SA)), None);
}

#[test]
fn live_dealer_link_is_filed_as_replay() {
    let changed = Timestamp::new(date(2024, 3, 4), 1, 0, 0, 0).unwrap();
    let one = bet(BetStatus::Closed, changed, None);
    let filed = extend_bet_with_details(
        &one,
        GameProvider::LiveCasino(LiveCasinoProvider::Sexy),
        Some(DetailReply::Url(Url("https://replay/1".to_string()))),
    )
    .unwrap();
    assert_eq!(filed.id, BetID(77));
    assert_eq!(filed.details, None);
    assert_eq!(filed.replay.unwrap().0, "https://replay/1");
}

#[test]
fn other_links_are_filed_as_json_details() {
    let changed = Timestamp::new(date(2024, 3, 4), 1, 0, 0, 0).unwrap();
    let one = bet(BetStatus::Closed, changed, None);
    let filed = extend_bet_with_details(
        &one,
        GameProvider::Slot(SlotProvider::Ameba),
        Some(DetailReply::Url(Url("https://history/\"1\"".to_string()))),
    )
    .unwrap();
    assert_eq!(filed.id, BetID(77));
    assert!(filed.replay.is_none());
    let text = filed.details.unwrap();
    assert_eq!(text, "{\"result\":\"https://history/\\\"1\\\"\"}");
    let parsed: serde_json::Value = serde_json::from_str(&text).unwrap();
    assert_eq!(parsed["result"].as_str(), Some("https://history/\"1\""));
}

#[test]
fn links_of_a_round_are_filed_under_urls() {
    let reply = DetailReply::Urls(vec![
        Url("a".to_string()),
        Url("b\\c".to_string()),
        Url("d".to_string()),
    ]);
    let text = render_details(&reply);
    assert_eq!(text, "{\"result\":{\"urls\":[\"a\",\"b\\\\c\",\"d\"]}}");
    let parsed: serde_json::Value = serde_json::from_str(&text).unwrap();
    assert_eq!(parsed["result"]["urls"][1].as_str(), Some("b\\c"));
    assert_eq!(render_details(&DetailReply::Urls(vec![])), "{\"result\":{\"urls\":[]}}");
    assert_eq!(
        render_details(&DetailReply::Urls(vec![Url("only".to_string())])),
        "{\"result\":{\"urls\":[\"only\"]}}"
    );
}

#[test]
fn no_answer_files_nothing() {
    let changed = Timestamp::new(date(2024, 3, 4), 1, 0, 0, 0).unwrap();
    let one = bet(BetStatus::Closed, changed, None);
    assert!(extend_bet_with_details(&one, GameProvider::Slot(SlotProvider::Ameba), None).is_none());
    assert!(extend_bet_with_details(
        &one,
        GameProvider::Slot(SlotProvider::PG),
        Some(DetailReply::Url(Url("x".to_string())))
    )
    .is_none());
    let detailed = bet(BetStatus::Closed, changed, Some("{}"));
    assert!(extend_bet_with_details(
        &detailed,
        GameProvider::Slot(SlotProvider::Pragmatic),
        Some(DetailReply::Url(Url("x".to_string())))
    )
    .is_none());
}
