use bet_archiver::connectors::{get_round_game_type, load_connectors, Connector, ConfiguredConnectors, ProviderConfig};
use bet_archiver::enums::{
    get_provider_language, BetStatus, ErrorKind, Language, PositionEnum, Product, ProviderGameKind,
};
use bet_archiver::error::ArchiveError;
use bet_archiver::provider::{
    get_drained_providers, get_game_providers, GameProvider, LiveCasinoProvider, Lottery,
    OnlineCasinoProvider, SlotProvider, Sportsbook,
};

#[test]
fn provider_names_are_read_back() {
    assert_eq!(
        GameProvider::from_str("sexy").unwrap(),
        GameProvider::LiveCasino(LiveCasinoProvider::Sexy)
    );
    assert_eq!(
        GameProvider::from_str("kingmaker").unwrap(),
        GameProvider::OnlineCasino(OnlineCasinoProvider::Kingmaker)
    );
    assert_eq!(
        GameProvider::from_str("royal_slot_gaming").unwrap(),
        GameProvider::Slot(SlotProvider::RoyalSlotGaming)
    );
    assert_eq!(GameProvider::from_str("stock").unwrap(), GameProvider::Lottery(Lottery::StockCollect));
    assert_eq!(GameProvider::from_str("parlay").unwrap(), GameProvider::Sport(Sportsbook::Parlay));
}

#[test]
fn live_pragmatic_is_read_from_its_short_name() {
    assert_eq!(
        GameProvider::from_str("pragmatic").unwrap(),
        GameProvider::LiveCasino(LiveCasinoProvider::Pragmatic)
    );
    assert_eq!(
        GameProvider::LiveCasino(LiveCasinoProvider::Pragmatic).as_ref(),
        "pragmatic_live_casino"
    );
    assert!(GameProvider::from_str("pragmatic_live_casino").is_err());
    assert_eq!(
        GameProvider::from_str("pragmatic_slot").unwrap(),
        GameProvider::Slot(SlotProvider::Pragmatic)
    );
}

#[test]
fn unknown_provider_name_is_an_error() {
    match GameProvider::from_str("nobody") {
        Err(ArchiveError::UnexpectedProviderName { name }) => assert_eq!(name, "nobody"),
        other => panic!("unexpected: {:?}", other),
    }
    assert!(GameProvider::from_str("").is_err());
    assert!(GameProvider::from_str("Sexy").is_err());
    let failure = GameProvider::from_str("nobody").unwrap_err();
    assert_eq!(failure.message(), "Unexpected provider name: 'nobody'");
}

#[test]
fn every_stored_name_but_one_reads_back_to_its_provider() {
    for provider in get_drained_providers() {
        if provider == GameProvider::LiveCasino(LiveCasinoProvider::Pragmatic) {
            continue;
        }
        assert_eq!(GameProvider::from_str(provider.as_ref()).unwrap(), provider);
    }
}

#[test]
fn providers_by_product() {
    assert_eq!(LiveCasinoProvider::variants().len(), 13);
    assert_eq!(OnlineCasinoProvider::variants().len(), 22);
    assert_eq!(SlotProvider::variants().len(), 39);
    assert_eq!(Sportsbook::variants().len(), 4);
    assert_eq!(Lottery::variants().len(), 44);
    let providers = get_game_providers();
    assert_eq!(providers.len(), 13 + 22 + 39 + 4);
    assert_eq!(providers[0], GameProvider::LiveCasino(LiveCasinoProvider::Sexy));
    assert_eq!(providers[13], GameProvider::OnlineCasino(OnlineCasinoProvider::Evoplay));
    assert_eq!(providers[35], GameProvider::Slot(SlotProvider::SlotXO));
    assert_eq!(providers[77], GameProvider::Sport(Sportsbook::Parlay));
    assert!(providers.iter().all(|p| !matches!(p, GameProvider::Lottery(_))));
    let drained = get_drained_providers();
    assert_eq!(drained.len(), 13 + 22 + 39 + 44 + 4);
    assert_eq!(drained[74], GameProvider::Lottery(Lottery::Thai));
    assert_eq!(drained[118], GameProvider::Sport(Sportsbook::SingleLive));
}

#[test]
fn into_game_provider_wraps_the_product() {
    assert_eq!(
        LiveCasinoProvider::AG.into_game_provider(),
        GameProvider::LiveCasino(LiveCasinoProvider::AG)
    );
    assert_eq!(
        OnlineCasinoProvider::Jili.into_game_provider(),
        GameProvider::OnlineCasino(OnlineCasinoProvider::Jili)
    );
    assert_eq!(SlotProvider::Relax.into_game_provider(), GameProvider::Slot(SlotProvider::Relax));
    assert_eq!(Sportsbook::Combo.into_game_provider(), GameProvider::Sport(Sportsbook::Combo));
    assert_eq!(Lottery::Gsb.into_game_provider(), GameProvider::Lottery(Lottery::Gsb));
}

#[test]
fn statuses_are_stored_in_upper_case() {
    assert_eq!(BetStatus::Closed.to_string(), "CLOSED");
    assert_eq!(BetStatus::Active.as_ref(), "ACTIVE");
    assert_eq!(BetStatus::from_str("VOID").unwrap(), BetStatus::Void);
    assert_eq!(BetStatus::from_str("CANCELLED").unwrap(), BetStatus::Cancelled);
    assert_eq!(BetStatus::from_str("SUSPENDED").unwrap(), BetStatus::Suspended);
    assert_eq!(BetStatus::from_str("PENDING").unwrap(), BetStatus::Pending);
    match BetStatus::from_str("closed") {
        Err(ArchiveError::InvalidStatus { status }) => assert_eq!(status, "closed"),
        other => panic!("unexpected: {:?}", other),
    }
    assert!(BetStatus::Active.still_open());
    assert!(BetStatus::Pending.still_open());
    assert!(!BetStatus::Closed.still_open());
    assert!(!BetStatus::Void.still_open());
    assert_eq!(BetStatus::variants().len(), 6);
}

#[test]
fn positions_are_ranks() {
    assert_eq!(PositionEnum::from(0), PositionEnum::Owner);
    assert_eq!(PositionEnum::from(5), PositionEnum::Agent);
    assert_eq!(PositionEnum::from(6), PositionEnum::Player);
    assert_eq!(PositionEnum::from_rank(7), None);
    assert_eq!(PositionEnum::from_rank(-1), None);
    assert_eq!(PositionEnum::from_rank(3), Some(PositionEnum::Senior));
    assert_eq!(PositionEnum::MasterAgent.index(), 4);
    assert_eq!(PositionEnum::Company.index(), 1);
    assert_eq!(PositionEnum::Shareholder.index(), 2);
    assert_eq!(PositionEnum::variants().len(), 7);
}

#[test]
fn codes_and_names_of_the_small_enums() {
    assert_eq!(Language::English.to_string(), "en");
    assert_eq!(Language::Japanese.as_ref(), "ja");
    assert_eq!(get_provider_language(Language::Chinese), "zh-CN");
    assert_eq!(get_provider_language(Language::English), "en-US");
    assert_eq!(get_provider_language(Language::Indonesian), "id-ID");
    assert_eq!(get_provider_language(Language::Thai), "th-TH");
    assert_eq!(get_provider_language(Language::Vietnamese), "vi-VN");
    assert_eq!(get_provider_language(Language::Korean), "en-US");
    assert_eq!(get_provider_language(Language::Malay), "en-US");
    assert_eq!(ProviderGameKind::FatTan.to_string(), "fan_tan");
    assert_eq!(ProviderGameKind::from_name("fishing"), Some(ProviderGameKind::Fishing));
    assert_eq!(ProviderGameKind::from_name("chess"), None);
    assert_eq!(Product::OnlineCasino.as_ref(), "ONLINE_CASINO");
    assert_eq!(Product::LiveCasino.to_string(), "LIVE_CASINO");
    assert_eq!(ErrorKind::Warning.as_i32(), 100);
    assert_eq!(ErrorKind::Error.as_i32(), 200);
    assert_eq!(ErrorKind::Critical.as_i32(), 300);
}

fn config(provider: GameProvider) -> ProviderConfig {
    ProviderConfig { game_provider: provider, config: "{}".to_string() }
}

fn all_configs() -> Vec<ProviderConfig> {
    vec![
        config(GameProvider::LiveCasino(LiveCasinoProvider::Sexy)),
        config(GameProvider::Slot(SlotProvider::Ameba)),
        config(GameProvider::OnlineCasino(OnlineCasinoProvider::Arcadia)),
        config(GameProvider::OnlineCasino(OnlineCasinoProvider::Kingmaker)),
        config(GameProvider::LiveCasino(LiveCasinoProvider::Pragmatic)),
        config(GameProvider::Slot(SlotProvider::RoyalSlotGaming)),
        config(GameProvider::Slot(SlotProvider::Relax)),
    ]
}

#[test]
fn settings_are_sorted_onto_their_connectors() {
    let assigned = load_connectors(&all_configs()).unwrap();
    assert_eq!(
        assigned,
        vec![
            Connector::Ae,
            Connector::Ameba,
            Connector::Arcadia,
            Connector::KingMaker,
            Connector::Pragmatic,
            Connector::RoyalSlotGaming,
            Connector::DotConnections,
        ]
    );
}

#[test]
fn settings_without_a_connector_are_an_error() {
    let mut configs = all_configs();
    configs.insert(2, config(GameProvider::Slot(SlotProvider::PG)));
    match load_connectors(&configs) {
        Err(ArchiveError::InvalidProviderConfig { provider }) => {
            assert_eq!(provider, GameProvider::Slot(SlotProvider::PG))
        }
        other => panic!("unexpected: {:?}", other),
    }
    let failure = load_connectors(&configs).unwrap_err();
    assert_eq!(failure.message(), "Loaded invalid provider config: 'pg_slot'");
}

#[test]
fn a_connector_without_settings_is_an_error() {
    let mut configs = all_configs();
    configs.remove(6);
    configs.remove(0);
    match load_connectors(&configs) {
        Err(ArchiveError::ConfigNotFound { connector }) => assert_eq!(connector, "dot_connections"),
        other => panic!("unexpected: {:?}", other),
    }
    let mut configs = all_configs();
    configs.remove(0);
    let failure = load_connectors(&configs).unwrap_err();
    assert_eq!(failure.message(), "sexy config not found");
    match load_connectors(&Vec::new()) {
        Err(ArchiveError::ConfigNotFound { connector }) => assert_eq!(connector, "dot_connections"),
        other => panic!("unexpected: {:?}", other),
    }
}

#[test]
fn connectors_are_noted_one_by_one() {
    let mut connectors = ConfiguredConnectors::none();
    assert!(connectors.require_all().is_err());
    for connector in [
        Connector::Ae,
        Connector::Ameba,
        Connector::Arcadia,
        Connector::KingMaker,
        Connector::Pragmatic,
        Connector::RoyalSlotGaming,
    ] {
        connectors.add(connector);
        assert!(connectors.require_all().is_err());
    }
    connectors.add(Connector::DotConnections);
    assert!(connectors.require_all().is_ok());
}

#[test]
fn fishing_games_are_filed_apart() {
    assert_eq!(get_round_game_type(Some(ProviderGameKind::Fishing)), 2);
    assert_eq!(get_round_game_type(Some(ProviderGameKind::Slot)), 1);
    assert_eq!(get_round_game_type(None), 1);
}
