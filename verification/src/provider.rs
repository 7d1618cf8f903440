//! Game providers, by product, and the names under which they are stored.
//!
//! Every provider has a stored name, which also names its table of live
//! bets. The names under which provider settings are read are the same
//! with one exception, which [`GameProvider::named`] holds.

use crate::error::ArchiveError;
use crate::text::same_text;
use vstd::prelude::*;
use vstd::string::*;

verus! {

/// The providers of live casino games.
#[derive(Debug, Clone, Copy, PartialEq, Eq, Structural, Hash)]
pub enum LiveCasinoProvider {
    Sexy,
    Pragmatic,
    SA,
    AG,
    Pretty,
    Dream,
    AllBet,
    Xtream,
    BetGames,
    BigGaming,
    MG,
    GreenDragon,
    WM,
}

impl LiveCasinoProvider {
    /// The stored name.
    pub open spec fn name(self) -> Seq<char> {
        match self {
            LiveCasinoProvider::Sexy => "sexy"@,
            LiveCasinoProvider::Pragmatic => "pragmatic_live_casino"@,
            LiveCasinoProvider::SA => "sa"@,
            LiveCasinoProvider::AG => "ag"@,
            LiveCasinoProvider::Pretty => "pretty"@,
            LiveCasinoProvider::Dream => "dream"@,
            LiveCasinoProvider::AllBet => "allbet"@,
            LiveCasinoProvider::Xtream => "xtream"@,
            LiveCasinoProvider::BetGames => "bet_games_live_casino"@,
            LiveCasinoProvider::BigGaming => "big_gaming_live_casino"@,
            LiveCasinoProvider::MG => "mg_live_casino"@,
            LiveCasinoProvider::GreenDragon => "green_dragon"@,
            LiveCasinoProvider::WM => "wm_live_casino"@,
        }
    }

    /// Every variant, in the order of declaration.
    pub open spec fn all() -> Seq<LiveCasinoProvider> {
        seq![
            LiveCasinoProvider::Sexy,
            LiveCasinoProvider::Pragmatic,
            LiveCasinoProvider::SA,
            LiveCasinoProvider::AG,
            LiveCasinoProvider::Pretty,
            LiveCasinoProvider::Dream,
            LiveCasinoProvider::AllBet,
            LiveCasinoProvider::Xtream,
            LiveCasinoProvider::BetGames,
            LiveCasinoProvider::BigGaming,
            LiveCasinoProvider::MG,
            LiveCasinoProvider::GreenDragon,
            LiveCasinoProvider::WM,
        ]
    }

    /// The variant that settings name `value`, if there is one.
    pub open spec fn named(value: Seq<char>) -> Option<LiveCasinoProvider> {
        if value == "sexy"@ {
            Some(LiveCasinoProvider::Sexy)
        } else if value == "pragmatic"@ {
            Some(LiveCasinoProvider::Pragmatic)
        } else if value == "sa"@ {
            Some(LiveCasinoProvider::SA)
        } else if value == "ag"@ {
            Some(LiveCasinoProvider::AG)
        } else if value == "pretty"@ {
            Some(LiveCasinoProvider::Pretty)
        } else if value == "dream"@ {
            Some(LiveCasinoProvider::Dream)
        } else if value == "allbet"@ {
            Some(LiveCasinoProvider::AllBet)
        } else if value == "xtream"@ {
            Some(LiveCasinoProvider::Xtream)
        } else if value == "bet_games_live_casino"@ {
            Some(LiveCasinoProvider::BetGames)
        } else if value == "big_gaming_live_casino"@ {
            Some(LiveCasinoProvider::BigGaming)
        } else if value == "mg_live_casino"@ {
            Some(LiveCasinoProvider::MG)
        } else if value == "green_dragon"@ {
            Some(LiveCasinoProvider::GreenDragon)
        } else if value == "wm_live_casino"@ {
            Some(LiveCasinoProvider::WM)
        } else {
            None
        }
    }

    /// The stored name.
    pub fn as_ref(&self) -> (name: &'static str)
        ensures
            name@ == self.name(),
    {
        match self {
            LiveCasinoProvider::Sexy => "sexy",
            LiveCasinoProvider::Pragmatic => "pragmatic_live_casino",
            LiveCasinoProvider::SA => "sa",
            LiveCasinoProvider::AG => "ag",
            LiveCasinoProvider::Pretty => "pretty",
            LiveCasinoProvider::Dream => "dream",
            LiveCasinoProvider::AllBet => "allbet",
            LiveCasinoProvider::Xtream => "xtream",
            LiveCasinoProvider::BetGames => "bet_games_live_casino",
            LiveCasinoProvider::BigGaming => "big_gaming_live_casino",
            LiveCasinoProvider::MG => "mg_live_casino",
            LiveCasinoProvider::GreenDragon => "green_dragon",
            LiveCasinoProvider::WM => "wm_live_casino",
        }
    }

    /// Every variant, in the order of declaration.
    pub fn variants() -> (list: Vec<LiveCasinoProvider>)
        ensures
            list@ == LiveCasinoProvider::all(),
    {
        let list = vec![
            LiveCasinoProvider::Sexy,
            LiveCasinoProvider::Pragmatic,
            LiveCasinoProvider::SA,
            LiveCasinoProvider::AG,
            LiveCasinoProvider::Pretty,
            LiveCasinoProvider::Dream,
            LiveCasinoProvider::AllBet,
            LiveCasinoProvider::Xtream,
            LiveCasinoProvider::BetGames,
            LiveCasinoProvider::BigGaming,
            LiveCasinoProvider::MG,
            LiveCasinoProvider::GreenDragon,
            LiveCasinoProvider::WM,
        ];
        assert(list@ =~= LiveCasinoProvider::all());
        list
    }

    /// The variant that settings name `value`, if there is one.
    pub fn from_name(value: &str) -> (found: Option<LiveCasinoProvider>)
        ensures
            found == LiveCasinoProvider::named(value@),
    {
        if same_text(value, "sexy") {
            Some(LiveCasinoProvider::Sexy)
        } else if same_text(value, "pragmatic") {
            Some(LiveCasinoProvider::Pragmatic)
        } else if same_text(value, "sa") {
            Some(LiveCasinoProvider::SA)
        } else if same_text(value, "ag") {
            Some(LiveCasinoProvider::AG)
        } else if same_text(value, "pretty") {
            Some(LiveCasinoProvider::Pretty)
        } else if same_text(value, "dream") {
            Some(LiveCasinoProvider::Dream)
        } else if same_text(value, "allbet") {
            Some(LiveCasinoProvider::AllBet)
        } else if same_text(value, "xtream") {
            Some(LiveCasinoProvider::Xtream)
        } else if same_text(value, "bet_games_live_casino") {
            Some(LiveCasinoProvider::BetGames)
        } else if same_text(value, "big_gaming_live_casino") {
            Some(LiveCasinoProvider::BigGaming)
        } else if same_text(value, "mg_live_casino") {
            Some(LiveCasinoProvider::MG)
        } else if same_text(value, "green_dragon") {
            Some(LiveCasinoProvider::GreenDragon)
        } else if same_text(value, "wm_live_casino") {
            Some(LiveCasinoProvider::WM)
        } else {
            None
        }
    }

    /// This provider as a [`GameProvider`].
    pub fn into_game_provider(self) -> (provider: GameProvider)
        ensures
            provider == GameProvider::LiveCasino(self),
    {
        GameProvider::LiveCasino(self)
    }

    /// [`LiveCasinoProvider::all`] leaves no variant out.
    pub proof fn lemma_all_is_complete(self)
        ensures
            LiveCasinoProvider::all().contains(self),
    {
        let all = LiveCasinoProvider::all();
        match self {
            LiveCasinoProvider::Sexy => assert(all[0] == self),
            LiveCasinoProvider::Pragmatic => assert(all[1] == self),
            LiveCasinoProvider::SA => assert(all[2] == self),
            LiveCasinoProvider::AG => assert(all[3] == self),
            LiveCasinoProvider::Pretty => assert(all[4] == self),
            LiveCasinoProvider::Dream => assert(all[5] == self),
            LiveCasinoProvider::AllBet => assert(all[6] == self),
            LiveCasinoProvider::Xtream => assert(all[7] == self),
            LiveCasinoProvider::BetGames => assert(all[8] == self),
            LiveCasinoProvider::BigGaming => assert(all[9] == self),
            LiveCasinoProvider::MG => assert(all[10] == self),
            LiveCasinoProvider::GreenDragon => assert(all[11] == self),
            LiveCasinoProvider::WM => assert(all[12] == self),
        }
    }
}

/// The providers of online casino games.
#[derive(Debug, Clone, Copy, PartialEq, Eq, Structural, Hash)]
pub enum OnlineCasinoProvider {
    Evoplay,
    BetGames,
    PG,
    AmbPoker,
    SlotXO,
    Dragoon,
    Jili,
    MG,
    GamingSoft,
    AmbSlot,
    Habanero,
    AstroTech,
    IconicGaming,
    FunTa,
    AllWaySpin,
    KaGaming,
    Kingmaker,
    Netent,
    RedTiger,
    Arcadia,
    Ninja,
    Kiss,
}

impl OnlineCasinoProvider {
    /// The stored name.
    pub open spec fn name(self) -> Seq<char> {
        match self {
            OnlineCasinoProvider::Evoplay => "evoplay_online_casino"@,
            OnlineCasinoProvider::BetGames => "bet_games_online_casino"@,
            OnlineCasinoProvider::PG => "pg_online_casino"@,
            OnlineCasinoProvider::AmbPoker => "ambpoker_online_casino"@,
            OnlineCasinoProvider::SlotXO => "slot_xo_online_casino"@,
            OnlineCasinoProvider::Dragoon => "dragoon_online_casino"@,
            OnlineCasinoProvider::Jili => "jili_online_casino"@,
            OnlineCasinoProvider::MG => "mg_online_casino"@,
            OnlineCasinoProvider::GamingSoft => "gaming_soft_online_casino"@,
            OnlineCasinoProvider::AmbSlot => "ambslot_online_casino"@,
            OnlineCasinoProvider::Habanero => "habanero_online_casino"@,
            OnlineCasinoProvider::AstroTech => "astro_tech_online_casino"@,
            OnlineCasinoProvider::IconicGaming => "iconic_gaming_online_casino"@,
            OnlineCasinoProvider::FunTa => "funta_online_casino"@,
            OnlineCasinoProvider::AllWaySpin => "all_way_spin_online_casino"@,
            OnlineCasinoProvider::KaGaming => "ka_gaming_online_casino"@,
            OnlineCasinoProvider::Kingmaker => "kingmaker"@,
            OnlineCasinoProvider::Netent => "netent_online_casino"@,
            OnlineCasinoProvider::RedTiger => "red_tiger_online_casino"@,
            OnlineCasinoProvider::Arcadia => "arcadia"@,
            OnlineCasinoProvider::Ninja => "ninja_online_casino"@,
            OnlineCasinoProvider::Kiss => "kiss_online_casino"@,
        }
    }

    /// Every variant, in the order of declaration.
    pub open spec fn all() -> Seq<OnlineCasinoProvider> {
        seq![
            OnlineCasinoProvider::Evoplay,
            OnlineCasinoProvider::BetGames,
            OnlineCasinoProvider::PG,
            OnlineCasinoProvider::AmbPoker,
            OnlineCasinoProvider::SlotXO,
            OnlineCasinoProvider::Dragoon,
            OnlineCasinoProvider::Jili,
            OnlineCasinoProvider::MG,
            OnlineCasinoProvider::GamingSoft,
            OnlineCasinoProvider::AmbSlot,
            OnlineCasinoProvider::Habanero,
            OnlineCasinoProvider::AstroTech,
            OnlineCasinoProvider::IconicGaming,
            OnlineCasinoProvider::FunTa,
            OnlineCasinoProvider::AllWaySpin,
            OnlineCasinoProvider::KaGaming,
            OnlineCasinoProvider::Kingmaker,
            OnlineCasinoProvider::Netent,
            OnlineCasinoProvider::RedTiger,
            OnlineCasinoProvider::Arcadia,
            OnlineCasinoProvider::Ninja,
            OnlineCasinoProvider::Kiss,
        ]
    }

    /// The variant that settings name `value`, if there is one.
    pub open spec fn named(value: Seq<char>) -> Option<OnlineCasinoProvider> {
        if value == "evoplay_online_casino"@ {
            Some(OnlineCasinoProvider::Evoplay)
        } else if value == "bet_games_online_casino"@ {
            Some(OnlineCasinoProvider::BetGames)
        } else if value == "pg_online_casino"@ {
            Some(OnlineCasinoProvider::PG)
        } else if value == "ambpoker_online_casino"@ {
            Some(OnlineCasinoProvider::AmbPoker)
        } else if value == "slot_xo_online_casino"@ {
            Some(OnlineCasinoProvider::SlotXO)
        } else if value == "dragoon_online_casino"@ {
            Some(OnlineCasinoProvider::Dragoon)
        } else if value == "jili_online_casino"@ {
            Some(OnlineCasinoProvider::Jili)
        } else if value == "mg_online_casino"@ {
            Some(OnlineCasinoProvider::MG)
        } else if value == "gaming_soft_online_casino"@ {
            Some(OnlineCasinoProvider::GamingSoft)
        } else if value == "ambslot_online_casino"@ {
            Some(OnlineCasinoProvider::AmbSlot)
        } else if value == "habanero_online_casino"@ {
            Some(OnlineCasinoProvider::Habanero)
        } else if value == "astro_tech_online_casino"@ {
            Some(OnlineCasinoProvider::AstroTech)
        } else if value == "iconic_gaming_online_casino"@ {
            Some(OnlineCasinoProvider::IconicGaming)
        } else if value == "funta_online_casino"@ {
            Some(OnlineCasinoProvider::FunTa)
        } else if value == "all_way_spin_online_casino"@ {
            Some(OnlineCasinoProvider::AllWaySpin)
        } else if value == "ka_gaming_online_casino"@ {
            Some(OnlineCasinoProvider::KaGaming)
        } else if value == "kingmaker"@ {
            Some(OnlineCasinoProvider::Kingmaker)
        } else if value == "netent_online_casino"@ {
            Some(OnlineCasinoProvider::Netent)
        } else if value == "red_tiger_online_casino"@ {
            Some(OnlineCasinoProvider::RedTiger)
        } else if value == "arcadia"@ {
            Some(OnlineCasinoProvider::Arcadia)
        } else if value == "ninja_online_casino"@ {
            Some(OnlineCasinoProvider::Ninja)
        } else if value == "kiss_online_casino"@ {
            Some(OnlineCasinoProvider::Kiss)
        } else {
            None
        }
    }

    /// The stored name.
    pub fn as_ref(&self) -> (name: &'static str)
        ensures
            name@ == self.name(),
    {
        match self {
            OnlineCasinoProvider::Evoplay => "evoplay_online_casino",
            OnlineCasinoProvider::BetGames => "bet_games_online_casino",
            OnlineCasinoProvider::PG => "pg_online_casino",
            OnlineCasinoProvider::AmbPoker => "ambpoker_online_casino",
            OnlineCasinoProvider::SlotXO => "slot_xo_online_casino",
            OnlineCasinoProvider::Dragoon => "dragoon_online_casino",
            OnlineCasinoProvider::Jili => "jili_online_casino",
            OnlineCasinoProvider::MG => "mg_online_casino",
            OnlineCasinoProvider::GamingSoft => "gaming_soft_online_casino",
            OnlineCasinoProvider::AmbSlot => "ambslot_online_casino",
            OnlineCasinoProvider::Habanero => "habanero_online_casino",
            OnlineCasinoProvider::AstroTech => "astro_tech_online_casino",
            OnlineCasinoProvider::IconicGaming => "iconic_gaming_online_casino",
            OnlineCasinoProvider::FunTa => "funta_online_casino",
            OnlineCasinoProvider::AllWaySpin => "all_way_spin_online_casino",
            OnlineCasinoProvider::KaGaming => "ka_gaming_online_casino",
            OnlineCasinoProvider::Kingmaker => "kingmaker",
            OnlineCasinoProvider::Netent => "netent_online_casino",
            OnlineCasinoProvider::RedTiger => "red_tiger_online_casino",
            OnlineCasinoProvider::Arcadia => "arcadia",
            OnlineCasinoProvider::Ninja => "ninja_online_casino",
            OnlineCasinoProvider::Kiss => "kiss_online_casino",
        }
    }

    /// Every variant, in the order of declaration.
    pub fn variants() -> (list: Vec<OnlineCasinoProvider>)
        ensures
            list@ == OnlineCasinoProvider::all(),
    {
        let list = vec![
            OnlineCasinoProvider::Evoplay,
            OnlineCasinoProvider::BetGames,
            OnlineCasinoProvider::PG,
            OnlineCasinoProvider::AmbPoker,
            OnlineCasinoProvider::SlotXO,
            OnlineCasinoProvider::Dragoon,
            OnlineCasinoProvider::Jili,
            OnlineCasinoProvider::MG,
            OnlineCasinoProvider::GamingSoft,
            OnlineCasinoProvider::AmbSlot,
            OnlineCasinoProvider::Habanero,
            OnlineCasinoProvider::AstroTech,
            OnlineCasinoProvider::IconicGaming,
            OnlineCasinoProvider::FunTa,
            OnlineCasinoProvider::AllWaySpin,
            OnlineCasinoProvider::KaGaming,
            OnlineCasinoProvider::Kingmaker,
            OnlineCasinoProvider::Netent,
            OnlineCasinoProvider::RedTiger,
            OnlineCasinoProvider::Arcadia,
            OnlineCasinoProvider::Ninja,
            OnlineCasinoProvider::Kiss,
        ];
        assert(list@ =~= OnlineCasinoProvider::all());
        list
    }

    /// The variant that settings name `value`, if there is one.
    pub fn from_name(value: &str) -> (found: Option<OnlineCasinoProvider>)
        ensures
            found == OnlineCasinoProvider::named(value@),
    {
        if same_text(value, "evoplay_online_casino") {
            Some(OnlineCasinoProvider::Evoplay)
        } else if same_text(value, "bet_games_online_casino") {
            Some(OnlineCasinoProvider::BetGames)
        } else if same_text(value, "pg_online_casino") {
            Some(OnlineCasinoProvider::PG)
        } else if same_text(value, "ambpoker_online_casino") {
            Some(OnlineCasinoProvider::AmbPoker)
        } else if same_text(value, "slot_xo_online_casino") {
            Some(OnlineCasinoProvider::SlotXO)
        } else if same_text(value, "dragoon_online_casino") {
            Some(OnlineCasinoProvider::Dragoon)
        } else if same_text(value, "jili_online_casino") {
            Some(OnlineCasinoProvider::Jili)
        } else if same_text(value, "mg_online_casino") {
            Some(OnlineCasinoProvider::MG)
        } else if same_text(value, "gaming_soft_online_casino") {
            Some(OnlineCasinoProvider::GamingSoft)
        } else if same_text(value, "ambslot_online_casino") {
            Some(OnlineCasinoProvider::AmbSlot)
        } else if same_text(value, "habanero_online_casino") {
            Some(OnlineCasinoProvider::Habanero)
        } else if same_text(value, "astro_tech_online_casino") {
            Some(OnlineCasinoProvider::AstroTech)
        } else if same_text(value, "iconic_gaming_online_casino") {
            Some(OnlineCasinoProvider::IconicGaming)
        } else if same_text(value, "funta_online_casino") {
            Some(OnlineCasinoProvider::FunTa)
        } else if same_text(value, "all_way_spin_online_casino") {
            Some(OnlineCasinoProvider::AllWaySpin)
        } else if same_text(value, "ka_gaming_online_casino") {
            Some(OnlineCasinoProvider::KaGaming)
        } else if same_text(value, "kingmaker") {
            Some(OnlineCasinoProvider::Kingmaker)
        } else if same_text(value, "netent_online_casino") {
            Some(OnlineCasinoProvider::Netent)
        } else if same_text(value, "red_tiger_online_casino") {
            Some(OnlineCasinoProvider::RedTiger)
        } else if same_text(value, "arcadia") {
            Some(OnlineCasinoProvider::Arcadia)
        } else if same_text(value, "ninja_online_casino") {
            Some(OnlineCasinoProvider::Ninja)
        } else if same_text(value, "kiss_online_casino") {
            Some(OnlineCasinoProvider::Kiss)
        } else {
            None
        }
    }

    /// This provider as a [`GameProvider`].
    pub fn into_game_provider(self) -> (provider: GameProvider)
        ensures
            provider == GameProvider::OnlineCasino(self),
    {
        GameProvider::OnlineCasino(self)
    }

    /// [`OnlineCasinoProvider::all`] leaves no variant out.
    pub proof fn lemma_all_is_complete(self)
        ensures
            OnlineCasinoProvider::all().contains(self),
    {
        let all = OnlineCasinoProvider::all();
        match self {
            OnlineCasinoProvider::Evoplay => assert(all[0] == self),
            OnlineCasinoProvider::BetGames => assert(all[1] == self),
            OnlineCasinoProvider::PG => assert(all[2] == self),
            OnlineCasinoProvider::AmbPoker => assert(all[3] == self),
            OnlineCasinoProvider::SlotXO => assert(all[4] == self),
            OnlineCasinoProvider::Dragoon => assert(all[5] == self),
            OnlineCasinoProvider::Jili => assert(all[6] == self),
            OnlineCasinoProvider::MG => assert(all[7] == self),
            OnlineCasinoProvider::GamingSoft => assert(all[8] == self),
            OnlineCasinoProvider::AmbSlot => assert(all[9] == self),
            OnlineCasinoProvider::Habanero => assert(all[10] == self),
            OnlineCasinoProvider::AstroTech => assert(all[11] == self),
            OnlineCasinoProvider::IconicGaming => assert(all[12] == self),
            OnlineCasinoProvider::FunTa => assert(all[13] == self),
            OnlineCasinoProvider::AllWaySpin => assert(all[14] == self),
            OnlineCasinoProvider::KaGaming => assert(all[15] == self),
            OnlineCasinoProvider::Kingmaker => assert(all[16] == self),
            OnlineCasinoProvider::Netent => assert(all[17] == self),
            OnlineCasinoProvider::RedTiger => assert(all[18] == self),
            OnlineCasinoProvider::Arcadia => assert(all[19] == self),
            OnlineCasinoProvider::Ninja => assert(all[20] == self),
            OnlineCasinoProvider::Kiss => assert(all[21] == self),
        }
    }
}

/// The providers of slot games.
#[derive(Debug, Clone, Copy, PartialEq, Eq, Structural, Hash)]
pub enum SlotProvider {
    SlotXO,
    PG,
    Evoplay,
    SimplePlay,
    Spade,
    AmbPoker,
    AmbSlot,
    Pragmatic,
    Dragoon,
    Jili,
    MannaPlay,
    RoyalSlotGaming,
    MG,
    UPG,
    GamingSoft,
    YGG,
    Slotmill,
    Habanero,
    AstroTech,
    Wazdan,
    AllWaySpin,
    Booongo,
    FunTa,
    IconicGaming,
    Gamatron,
    KaGaming,
    PlaySon,
    WM,
    Ameba,
    I8,
    CreativeGaming,
    RedTiger,
    Netent,
    Relax,
    Ninja,
    Kiss,
    Spinix,
    DragonGaming,
    Hacksaw,
}

impl SlotProvider {
    /// The stored name.
    pub open spec fn name(self) -> Seq<char> {
        match self {
            SlotProvider::SlotXO => "slot_xo_slot"@,
            SlotProvider::PG => "pg_slot"@,
            SlotProvider::Evoplay => "evoplay_slot"@,
            SlotProvider::SimplePlay => "simpleplay"@,
            SlotProvider::Spade => "spade"@,
            SlotProvider::AmbPoker => "ambpoker_slot"@,
            SlotProvider::AmbSlot => "ambslot_slot"@,
            SlotProvider::Pragmatic => "pragmatic_slot"@,
            SlotProvider::Dragoon => "dragoon_slot"@,
            SlotProvider::Jili => "jili_slot"@,
            SlotProvider::MannaPlay => "mannaplay"@,
            SlotProvider::RoyalSlotGaming => "royal_slot_gaming"@,
            SlotProvider::MG => "mg_slot"@,
            SlotProvider::UPG => "upg_slot"@,
            SlotProvider::GamingSoft => "gaming_soft_slot"@,
            SlotProvider::YGG => "ygg_slot"@,
            SlotProvider::Slotmill => "slotmill"@,
            SlotProvider::Habanero => "habanero_slot"@,
            SlotProvider::AstroTech => "astro_tech_slot"@,
            SlotProvider::Wazdan => "wazdan"@,
            SlotProvider::AllWaySpin => "all_way_spin_slot"@,
            SlotProvider::Booongo => "booongo"@,
            SlotProvider::FunTa => "funta_slot"@,
            SlotProvider::IconicGaming => "iconic_gaming_slot"@,
            SlotProvider::Gamatron => "gamatron"@,
            SlotProvider::KaGaming => "ka_gaming_slot"@,
            SlotProvider::PlaySon => "play_son"@,
            SlotProvider::WM => "wm_slot"@,
            SlotProvider::Ameba => "ameba"@,
            SlotProvider::I8 => "i8"@,
            SlotProvider::CreativeGaming => "creative_gaming"@,
            SlotProvider::RedTiger => "red_tiger_slot"@,
            SlotProvider::Netent => "netent_slot"@,
            SlotProvider::Relax => "relax"@,
            SlotProvider::Ninja => "ninja_slot"@,
            SlotProvider::Kiss => "kiss_slot"@,
            SlotProvider::Spinix => "spinix_slot"@,
            SlotProvider::DragonGaming => "dragon_gaming"@,
            SlotProvider::Hacksaw => "hacksaw"@,
        }
    }

    /// Every variant, in the order of declaration.
    pub open spec fn all() -> Seq<SlotProvider> {
        seq![
            SlotProvider::SlotXO,
            SlotProvider::PG,
            SlotProvider::Evoplay,
            SlotProvider::SimplePlay,
            SlotProvider::Spade,
            SlotProvider::AmbPoker,
            SlotProvider::AmbSlot,
            SlotProvider::Pragmatic,
            SlotProvider::Dragoon,
            SlotProvider::Jili,
            SlotProvider::MannaPlay,
            SlotProvider::RoyalSlotGaming,
            SlotProvider::MG,
            SlotProvider::UPG,
            SlotProvider::GamingSoft,
            SlotProvider::YGG,
            SlotProvider::Slotmill,
            SlotProvider::Habanero,
            SlotProvider::AstroTech,
            SlotProvider::Wazdan,
            SlotProvider::AllWaySpin,
            SlotProvider::Booongo,
            SlotProvider::FunTa,
            SlotProvider::IconicGaming,
            SlotProvider::Gamatron,
            SlotProvider::KaGaming,
            SlotProvider::PlaySon,
            SlotProvider::WM,
            SlotProvider::Ameba,
            SlotProvider::I8,
            SlotProvider::CreativeGaming,
            SlotProvider::RedTiger,
            SlotProvider::Netent,
            SlotProvider::Relax,
            SlotProvider::Ninja,
            SlotProvider::Kiss,
            SlotProvider::Spinix,
            SlotProvider::DragonGaming,
            SlotProvider::Hacksaw,
        ]
    }

    /// The variant that settings name `value`, if there is one.
    pub open spec fn named(value: Seq<char>) -> Option<SlotProvider> {
        if value == "slot_xo_slot"@ {
            Some(SlotProvider::SlotXO)
        } else if value == "pg_slot"@ {
            Some(SlotProvider::PG)
        } else if value == "evoplay_slot"@ {
            Some(SlotProvider::Evoplay)
        } else if value == "simpleplay"@ {
            Some(SlotProvider::SimplePlay)
        } else if value == "spade"@ {
            Some(SlotProvider::Spade)
        } else if value == "ambpoker_slot"@ {
            Some(SlotProvider::AmbPoker)
        } else if value == "ambslot_slot"@ {
            Some(SlotProvider::AmbSlot)
        } else if value == "pragmatic_slot"@ {
            Some(SlotProvider::Pragmatic)
        } else if value == "dragoon_slot"@ {
            Some(SlotProvider::Dragoon)
        } else if value == "jili_slot"@ {
            Some(SlotProvider::Jili)
        } else if value == "mannaplay"@ {
            Some(SlotProvider::MannaPlay)
        } else if value == "royal_slot_gaming"@ {
            Some(SlotProvider::RoyalSlotGaming)
        } else if value == "mg_slot"@ {
            Some(SlotProvider::MG)
        } else if value == "upg_slot"@ {
            Some(SlotProvider::UPG)
        } else if value == "gaming_soft_slot"@ {
            Some(SlotProvider::GamingSoft)
        } else if value == "ygg_slot"@ {
            Some(SlotProvider::YGG)
        } else if value == "slotmill"@ {
            Some(SlotProvider::Slotmill)
        } else if value == "habanero_slot"@ {
            Some(SlotProvider::Habanero)
        } else if value == "astro_tech_slot"@ {
            Some(SlotProvider::AstroTech)
        } else if value == "wazdan"@ {
            Some(SlotProvider::Wazdan)
        } else if value == "all_way_spin_slot"@ {
            Some(SlotProvider::AllWaySpin)
        } else if value == "booongo"@ {
            Some(SlotProvider::Booongo)
        } else if value == "funta_slot"@ {
            Some(SlotProvider::FunTa)
        } else if value == "iconic_gaming_slot"@ {
            Some(SlotProvider::IconicGaming)
        } else if value == "gamatron"@ {
            Some(SlotProvider::Gamatron)
        } else if value == "ka_gaming_slot"@ {
            Some(SlotProvider::KaGaming)
        } else if value == "play_son"@ {
            Some(SlotProvider::PlaySon)
        } else if value == "wm_slot"@ {
            Some(SlotProvider::WM)
        } else if value == "ameba"@ {
            Some(SlotProvider::Ameba)
        } else if value == "i8"@ {
            Some(SlotProvider::I8)
        } else if value == "creative_gaming"@ {
            Some(SlotProvider::CreativeGaming)
        } else if value == "red_tiger_slot"@ {
            Some(SlotProvider::RedTiger)
        } else if value == "netent_slot"@ {
            Some(SlotProvider::Netent)
        } else if value == "relax"@ {
            Some(SlotProvider::Relax)
        } else if value == "ninja_slot"@ {
            Some(SlotProvider::Ninja)
        } else if value == "kiss_slot"@ {
            Some(SlotProvider::Kiss)
        } else if value == "spinix_slot"@ {
            Some(SlotProvider::Spinix)
        } else if value == "dragon_gaming"@ {
            Some(SlotProvider::DragonGaming)
        } else if value == "hacksaw"@ {
            Some(SlotProvider::Hacksaw)
        } else {
            None
        }
    }

    /// The stored name.
    pub fn as_ref(&self) -> (name: &'static str)
        ensures
            name@ == self.name(),
    {
        match self {
            SlotProvider::SlotXO => "slot_xo_slot",
            SlotProvider::PG => "pg_slot",
            SlotProvider::Evoplay => "evoplay_slot",
            SlotProvider::SimplePlay => "simpleplay",
            SlotProvider::Spade => "spade",
            SlotProvider::AmbPoker => "ambpoker_slot",
            SlotProvider::AmbSlot => "ambslot_slot",
            SlotProvider::Pragmatic => "pragmatic_slot",
            SlotProvider::Dragoon => "dragoon_slot",
            SlotProvider::Jili => "jili_slot",
            SlotProvider::MannaPlay => "mannaplay",
            SlotProvider::RoyalSlotGaming => "royal_slot_gaming",
            SlotProvider::MG => "mg_slot",
            SlotProvider::UPG => "upg_slot",
            SlotProvider::GamingSoft => "gaming_soft_slot",
            SlotProvider::YGG => "ygg_slot",
            SlotProvider::Slotmill => "slotmill",
            SlotProvider::Habanero => "habanero_slot",
            SlotProvider::AstroTech => "astro_tech_slot",
            SlotProvider::Wazdan => "wazdan",
            SlotProvider::AllWaySpin => "all_way_spin_slot",
            SlotProvider::Booongo => "booongo",
            SlotProvider::FunTa => "funta_slot",
            SlotProvider::IconicGaming => "iconic_gaming_slot",
            SlotProvider::Gamatron => "gamatron",
            SlotProvider::KaGaming => "ka_gaming_slot",
            SlotProvider::PlaySon => "play_son",
            SlotProvider::WM => "wm_slot",
            SlotProvider::Ameba => "ameba",
            SlotProvider::I8 => "i8",
            SlotProvider::CreativeGaming => "creative_gaming",
            SlotProvider::RedTiger => "red_tiger_slot",
            SlotProvider::Netent => "netent_slot",
            SlotProvider::Relax => "relax",
            SlotProvider::Ninja => "ninja_slot",
            SlotProvider::Kiss => "kiss_slot",
            SlotProvider::Spinix => "spinix_slot",
            SlotProvider::DragonGaming => "dragon_gaming",
            SlotProvider::Hacksaw => "hacksaw",
        }
    }

    /// Every variant, in the order of declaration.
    pub fn variants() -> (list: Vec<SlotProvider>)
        ensures
            list@ == SlotProvider::all(),
    {
        let list = vec![
            SlotProvider::SlotXO,
            SlotProvider::PG,
            SlotProvider::Evoplay,
            SlotProvider::SimplePlay,
            SlotProvider::Spade,
            SlotProvider::AmbPoker,
            SlotProvider::AmbSlot,
            SlotProvider::Pragmatic,
            SlotProvider::Dragoon,
            SlotProvider::Jili,
            SlotProvider::MannaPlay,
            SlotProvider::RoyalSlotGaming,
            SlotProvider::MG,
            SlotProvider::UPG,
            SlotProvider::GamingSoft,
            SlotProvider::YGG,
            SlotProvider::Slotmill,
            SlotProvider::Habanero,
            SlotProvider::AstroTech,
            SlotProvider::Wazdan,
            SlotProvider::AllWaySpin,
            SlotProvider::Booongo,
            SlotProvider::FunTa,
            SlotProvider::IconicGaming,
            SlotProvider::Gamatron,
            SlotProvider::KaGaming,
            SlotProvider::PlaySon,
            SlotProvider::WM,
            SlotProvider::Ameba,
            SlotProvider::I8,
            SlotProvider::CreativeGaming,
            SlotProvider::RedTiger,
            SlotProvider::Netent,
            SlotProvider::Relax,
            SlotProvider::Ninja,
            SlotProvider::Kiss,
            SlotProvider::Spinix,
            SlotProvider::DragonGaming,
            SlotProvider::Hacksaw,
        ];
        assert(list@ =~= SlotProvider::all());
        list
    }

    /// The variant that settings name `value`, if there is one.
    pub fn from_name(value: &str) -> (found: Option<SlotProvider>)
        ensures
            found == SlotProvider::named(value@),
    {
        if same_text(value, "slot_xo_slot") {
            Some(SlotProvider::SlotXO)
        } else if same_text(value, "pg_slot") {
            Some(SlotProvider::PG)
        } else if same_text(value, "evoplay_slot") {
            Some(SlotProvider::Evoplay)
        } else if same_text(value, "simpleplay") {
            Some(SlotProvider::SimplePlay)
        } else if same_text(value, "spade") {
            Some(SlotProvider::Spade)
        } else if same_text(value, "ambpoker_slot") {
            Some(SlotProvider::AmbPoker)
        } else if same_text(value, "ambslot_slot") {
            Some(SlotProvider::AmbSlot)
        } else if same_text(value, "pragmatic_slot") {
            Some(SlotProvider::Pragmatic)
        } else if same_text(value, "dragoon_slot") {
            Some(SlotProvider::Dragoon)
        } else if same_text(value, "jili_slot") {
            Some(SlotProvider::Jili)
        } else if same_text(value, "mannaplay") {
            Some(SlotProvider::MannaPlay)
        } else if same_text(value, "royal_slot_gaming") {
            Some(SlotProvider::RoyalSlotGaming)
        } else if same_text(value, "mg_slot") {
            Some(SlotProvider::MG)
        } else if same_text(value, "upg_slot") {
            Some(SlotProvider::UPG)
        } else if same_text(value, "gaming_soft_slot") {
            Some(SlotProvider::GamingSoft)
        } else if same_text(value, "ygg_slot") {
            Some(SlotProvider::YGG)
        } else if same_text(value, "slotmill") {
            Some(SlotProvider::Slotmill)
        } else if same_text(value, "habanero_slot") {
            Some(SlotProvider::Habanero)
        } else if same_text(value, "astro_tech_slot") {
            Some(SlotProvider::AstroTech)
        } else if same_text(value, "wazdan") {
            Some(SlotProvider::Wazdan)
        } else if same_text(value, "all_way_spin_slot") {
            Some(SlotProvider::AllWaySpin)
        } else if same_text(value, "booongo") {
            Some(SlotProvider::Booongo)
        } else if same_text(value, "funta_slot") {
            Some(SlotProvider::FunTa)
        } else if same_text(value, "iconic_gaming_slot") {
            Some(SlotProvider::IconicGaming)
        } else if same_text(value, "gamatron") {
            Some(SlotProvider::Gamatron)
        } else if same_text(value, "ka_gaming_slot") {
            Some(SlotProvider::KaGaming)
        } else if same_text(value, "play_son") {
            Some(SlotProvider::PlaySon)
        } else if same_text(value, "wm_slot") {
            Some(SlotProvider::WM)
        } else if same_text(value, "ameba") {
            Some(SlotProvider::Ameba)
        } else if same_text(value, "i8") {
            Some(SlotProvider::I8)
        } else if same_text(value, "creative_gaming") {
            Some(SlotProvider::CreativeGaming)
        } else if same_text(value, "red_tiger_slot") {
            Some(SlotProvider::RedTiger)
        } else if same_text(value, "netent_slot") {
            Some(SlotProvider::Netent)
        } else if same_text(value, "relax") {
            Some(SlotProvider::Relax)
        } else if same_text(value, "ninja_slot") {
            Some(SlotProvider::Ninja)
        } else if same_text(value, "kiss_slot") {
            Some(SlotProvider::Kiss)
        } else if same_text(value, "spinix_slot") {
            Some(SlotProvider::Spinix)
        } else if same_text(value, "dragon_gaming") {
            Some(SlotProvider::DragonGaming)
        } else if same_text(value, "hacksaw") {
            Some(SlotProvider::Hacksaw)
        } else {
            None
        }
    }

    /// This provider as a [`GameProvider`].
    pub fn into_game_provider(self) -> (provider: GameProvider)
        ensures
            provider == GameProvider::Slot(self),
    {
        GameProvider::Slot(self)
    }

    /// [`SlotProvider::all`] leaves no variant out.
    pub proof fn lemma_all_is_complete(self)
        ensures
            SlotProvider::all().contains(self),
    {
        let all = SlotProvider::all();
        match self {
            SlotProvider::SlotXO => assert(all[0] == self),
            SlotProvider::PG => assert(all[1] == self),
            SlotProvider::Evoplay => assert(all[2] == self),
            SlotProvider::SimplePlay => assert(all[3] == self),
            SlotProvider::Spade => assert(all[4] == self),
            SlotProvider::AmbPoker => assert(all[5] == self),
            SlotProvider::AmbSlot => assert(all[6] == self),
            SlotProvider::Pragmatic => assert(all[7] == self),
            SlotProvider::Dragoon => assert(all[8] == self),
            SlotProvider::Jili => assert(all[9] == self),
            SlotProvider::MannaPlay => assert(all[10] == self),
            SlotProvider::RoyalSlotGaming => assert(all[11] == self),
            SlotProvider::MG => assert(all[12] == self),
            SlotProvider::UPG => assert(all[13] == self),
            SlotProvider::GamingSoft => assert(all[14] == self),
            SlotProvider::YGG => assert(all[15] == self),
            SlotProvider::Slotmill => assert(all[16] == self),
            SlotProvider::Habanero => assert(all[17] == self),
            SlotProvider::AstroTech => assert(all[18] == self),
            SlotProvider::Wazdan => assert(all[19] == self),
            SlotProvider::AllWaySpin => assert(all[20] == self),
            SlotProvider::Booongo => assert(all[21] == self),
            SlotProvider::FunTa => assert(all[22] == self),
            SlotProvider::IconicGaming => assert(all[23] == self),
            SlotProvider::Gamatron => assert(all[24] == self),
            SlotProvider::KaGaming => assert(all[25] == self),
            SlotProvider::PlaySon => assert(all[26] == self),
            SlotProvider::WM => assert(all[27] == self),
            SlotProvider::Ameba => assert(all[28] == self),
            SlotProvider::I8 => assert(all[29] == self),
            SlotProvider::CreativeGaming => assert(all[30] == self),
            SlotProvider::RedTiger => assert(all[31] == self),
            SlotProvider::Netent => assert(all[32] == self),
            SlotProvider::Relax => assert(all[33] == self),
            SlotProvider::Ninja => assert(all[34] == self),
            SlotProvider::Kiss => assert(all[35] == self),
            SlotProvider::Spinix => assert(all[36] == self),
            SlotProvider::DragonGaming => assert(all[37] == self),
            SlotProvider::Hacksaw => assert(all[38] == self),
        }
    }
}

/// The lotteries.
#[derive(Debug, Clone, Copy, PartialEq, Eq, Structural, Hash)]
pub enum Lottery {
    Thai,
    Lao,
    Hanoi,
    HanoiVip,
    Baac,
    Gsb,
    PingPong,
    LaoSet,
    Yeekee,
    Malaysian,
    HanoiSet,
    HanoiVipSet,
    HanoiSpecialSet,
    MalaySet,
    HanoiSpecial,
    StockKorea,
    StockChina,
    StockDowJones,
    StockDowJonesVip,
    StockTaiwan,
    StockBritish,
    StockIndia,
    StockHangSeng,
    StockEgyptian,
    StockNikkei,
    StockSingapore,
    StockThai,
    StockGerman,
    StockRussian,
    StockCollect,
    Zodiac,
    PingPong2,
    PingPong3,
    PingPong6,
    HanoiStarSet,
    HanoiStar,
    HanoiTv,
    HanoiTvSet,
    LaoExtra,
    LaoExtraSet,
    LaoHd,
    LaoHdSet,
    LaoTv,
    LaoTvSet,
}

impl Lottery {
    /// The stored name.
    pub open spec fn name(self) -> Seq<char> {
        match self {
            Lottery::Thai => "thailotto"@,
            Lottery::Lao => "laoslotto"@,
            Lottery::Hanoi => "hanoylotto"@,
            Lottery::HanoiVip => "hanoylottovip"@,
            Lottery::Baac => "baaclotto"@,
            Lottery::Gsb => "gsblotto"@,
            Lottery::PingPong => "pingponglotto"@,
            Lottery::LaoSet => "laoslotto_set"@,
            Lottery::Yeekee => "yeekeelotto"@,
            Lottery::Malaysian => "malaylotto"@,
            Lottery::HanoiSet => "hanoylotto_set"@,
            Lottery::HanoiVipSet => "hanoylottovip_set"@,
            Lottery::HanoiSpecialSet => "hanoylottospecial_set"@,
            Lottery::MalaySet => "malaylotto_set"@,
            Lottery::HanoiSpecial => "hanoylottospecial"@,
            Lottery::StockKorea => "stockkorea"@,
            Lottery::StockChina => "stockchina"@,
            Lottery::StockDowJones => "stockdowjones"@,
            Lottery::StockDowJonesVip => "stockdowjonesvip"@,
            Lottery::StockTaiwan => "stocktaiwan"@,
            Lottery::StockBritish => "stockengland"@,
            Lottery::StockIndia => "stockindia"@,
            Lottery::StockHangSeng => "stockhangseng"@,
            Lottery::StockEgyptian => "stockegypt"@,
            Lottery::StockNikkei => "stocknikkei"@,
            Lottery::StockSingapore => "stocksingapore"@,
            Lottery::StockThai => "stockthai"@,
            Lottery::StockGerman => "stockgerman"@,
            Lottery::StockRussian => "stockrussia"@,
            Lottery::StockCollect => "stock"@,
            Lottery::Zodiac => "zodiaclotto"@,
            Lottery::PingPong2 => "pingponglotto2"@,
            Lottery::PingPong3 => "pingponglotto3"@,
            Lottery::PingPong6 => "pingponglotto6"@,
            Lottery::HanoiStarSet => "hanoylottostar_set"@,
            Lottery::HanoiStar => "hanoylottostar"@,
            Lottery::HanoiTv => "hanoylottotv"@,
            Lottery::HanoiTvSet => "hanoylottotv_set"@,
            Lottery::LaoExtra => "laoslottoextra"@,
            Lottery::LaoExtraSet => "laoslottoextra_set"@,
            Lottery::LaoHd => "laoslottohd"@,
            Lottery::LaoHdSet => "laoslottohd_set"@,
            Lottery::LaoTv => "laoslottotv"@,
            Lottery::LaoTvSet => "laoslottotv_set"@,
        }
    }

    /// Every variant, in the order of declaration.
    pub open spec fn all() -> Seq<Lottery> {
        seq![
            Lottery::Thai,
            Lottery::Lao,
            Lottery::Hanoi,
            Lottery::HanoiVip,
            Lottery::Baac,
            Lottery::Gsb,
            Lottery::PingPong,
            Lottery::LaoSet,
            Lottery::Yeekee,
            Lottery::Malaysian,
            Lottery::HanoiSet,
            Lottery::HanoiVipSet,
            Lottery::HanoiSpecialSet,
            Lottery::MalaySet,
            Lottery::HanoiSpecial,
            Lottery::StockKorea,
            Lottery::StockChina,
            Lottery::StockDowJones,
            Lottery::StockDowJonesVip,
            Lottery::StockTaiwan,
            Lottery::StockBritish,
            Lottery::StockIndia,
            Lottery::StockHangSeng,
            Lottery::StockEgyptian,
            Lottery::StockNikkei,
            Lottery::StockSingapore,
            Lottery::StockThai,
            Lottery::StockGerman,
            Lottery::StockRussian,
            Lottery::StockCollect,
            Lottery::Zodiac,
            Lottery::PingPong2,
            Lottery::PingPong3,
            Lottery::PingPong6,
            Lottery::HanoiStarSet,
            Lottery::HanoiStar,
            Lottery::HanoiTv,
            Lottery::HanoiTvSet,
            Lottery::LaoExtra,
            Lottery::LaoExtraSet,
            Lottery::LaoHd,
            Lottery::LaoHdSet,
            Lottery::LaoTv,
            Lottery::LaoTvSet,
        ]
    }

    /// The variant that settings name `value`, if there is one.
    pub open spec fn named(value: Seq<char>) -> Option<Lottery> {
        if value == "thailotto"@ {
            Some(Lottery::Thai)
        } else if value == "laoslotto"@ {
            Some(Lottery::Lao)
        } else if value == "hanoylotto"@ {
            Some(Lottery::Hanoi)
        } else if value == "hanoylottovip"@ {
            Some(Lottery::HanoiVip)
        } else if value == "baaclotto"@ {
            Some(Lottery::Baac)
        } else if value == "gsblotto"@ {
            Some(Lottery::Gsb)
        } else if value == "pingponglotto"@ {
            Some(Lottery::PingPong)
        } else if value == "laoslotto_set"@ {
            Some(Lottery::LaoSet)
        } else if value == "yeekeelotto"@ {
            Some(Lottery::Yeekee)
        } else if value == "malaylotto"@ {
            Some(Lottery::Malaysian)
        } else if value == "hanoylotto_set"@ {
            Some(Lottery::HanoiSet)
        } else if value == "hanoylottovip_set"@ {
            Some(Lottery::HanoiVipSet)
        } else if value == "hanoylottospecial_set"@ {
            Some(Lottery::HanoiSpecialSet)
        } else if value == "malaylotto_set"@ {
            Some(Lottery::MalaySet)
        } else if value == "hanoylottospecial"@ {
            Some(Lottery::HanoiSpecial)
        } else if value == "stockkorea"@ {
            Some(Lottery::StockKorea)
        } else if value == "stockchina"@ {
            Some(Lottery::StockChina)
        } else if value == "stockdowjones"@ {
            Some(Lottery::StockDowJones)
        } else if value == "stockdowjonesvip"@ {
            Some(Lottery::StockDowJonesVip)
        } else if value == "stocktaiwan"@ {
            Some(Lottery::StockTaiwan)
        } else if value == "stockengland"@ {
            Some(Lottery::StockBritish)
        } else if value == "stockindia"@ {
            Some(Lottery::StockIndia)
        } else if value == "stockhangseng"@ {
            Some(Lottery::StockHangSeng)
        } else if value == "stockegypt"@ {
            Some(Lottery::StockEgyptian)
        } else if value == "stocknikkei"@ {
            Some(Lottery::StockNikkei)
        } else if value == "stocksingapore"@ {
            Some(Lottery::StockSingapore)
        } else if value == "stockthai"@ {
            Some(Lottery::StockThai)
        } else if value == "stockgerman"@ {
            Some(Lottery::StockGerman)
        } else if value == "stockrussia"@ {
            Some(Lottery::StockRussian)
        } else if value == "stock"@ {
            Some(Lottery::StockCollect)
        } else if value == "zodiaclotto"@ {
            Some(Lottery::Zodiac)
        } else if value == "pingponglotto2"@ {
            Some(Lottery::PingPong2)
        } else if value == "pingponglotto3"@ {
            Some(Lottery::PingPong3)
        } else if value == "pingponglotto6"@ {
            Some(Lottery::PingPong6)
        } else if value == "hanoylottostar_set"@ {
            Some(Lottery::HanoiStarSet)
        } else if value == "hanoylottostar"@ {
            Some(Lottery::HanoiStar)
        } else if value == "hanoylottotv"@ {
            Some(Lottery::HanoiTv)
        } else if value == "hanoylottotv_set"@ {
            Some(Lottery::HanoiTvSet)
        } else if value == "laoslottoextra"@ {
            Some(Lottery::LaoExtra)
        } else if value == "laoslottoextra_set"@ {
            Some(Lottery::LaoExtraSet)
        } else if value == "laoslottohd"@ {
            Some(Lottery::LaoHd)
        } else if value == "laoslottohd_set"@ {
            Some(Lottery::LaoHdSet)
        } else if value == "laoslottotv"@ {
            Some(Lottery::LaoTv)
        } else if value == "laoslottotv_set"@ {
            Some(Lottery::LaoTvSet)
        } else {
            None
        }
    }

    /// The stored name.
    pub fn as_ref(&self) -> (name: &'static str)
        ensures
            name@ == self.name(),
    {
        match self {
            Lottery::Thai => "thailotto",
            Lottery::Lao => "laoslotto",
            Lottery::Hanoi => "hanoylotto",
            Lottery::HanoiVip => "hanoylottovip",
            Lottery::Baac => "baaclotto",
            Lottery::Gsb => "gsblotto",
            Lottery::PingPong => "pingponglotto",
            Lottery::LaoSet => "laoslotto_set",
            Lottery::Yeekee => "yeekeelotto",
            Lottery::Malaysian => "malaylotto",
            Lottery::HanoiSet => "hanoylotto_set",
            Lottery::HanoiVipSet => "hanoylottovip_set",
            Lottery::HanoiSpecialSet => "hanoylottospecial_set",
            Lottery::MalaySet => "malaylotto_set",
            Lottery::HanoiSpecial => "hanoylottospecial",
            Lottery::StockKorea => "stockkorea",
            Lottery::StockChina => "stockchina",
            Lottery::StockDowJones => "stockdowjones",
            Lottery::StockDowJonesVip => "stockdowjonesvip",
            Lottery::StockTaiwan => "stocktaiwan",
            Lottery::StockBritish => "stockengland",
            Lottery::StockIndia => "stockindia",
            Lottery::StockHangSeng => "stockhangseng",
            Lottery::StockEgyptian => "stockegypt",
            Lottery::StockNikkei => "stocknikkei",
            Lottery::StockSingapore => "stocksingapore",
            Lottery::StockThai => "stockthai",
            Lottery::StockGerman => "stockgerman",
            Lottery::StockRussian => "stockrussia",
            Lottery::StockCollect => "stock",
            Lottery::Zodiac => "zodiaclotto",
            Lottery::PingPong2 => "pingponglotto2",
            Lottery::PingPong3 => "pingponglotto3",
            Lottery::PingPong6 => "pingponglotto6",
            Lottery::HanoiStarSet => "hanoylottostar_set",
            Lottery::HanoiStar => "hanoylottostar",
            Lottery::HanoiTv => "hanoylottotv",
            Lottery::HanoiTvSet => "hanoylottotv_set",
            Lottery::LaoExtra => "laoslottoextra",
            Lottery::LaoExtraSet => "laoslottoextra_set",
            Lottery::LaoHd => "laoslottohd",
            Lottery::LaoHdSet => "laoslottohd_set",
            Lottery::LaoTv => "laoslottotv",
            Lottery::LaoTvSet => "laoslottotv_set",
        }
    }

    /// Every variant, in the order of declaration.
    pub fn variants() -> (list: Vec<Lottery>)
        ensures
            list@ == Lottery::all(),
    {
        let list = vec![
            Lottery::Thai,
            Lottery::Lao,
            Lottery::Hanoi,
            Lottery::HanoiVip,
            Lottery::Baac,
            Lottery::Gsb,
            Lottery::PingPong,
            Lottery::LaoSet,
            Lottery::Yeekee,
            Lottery::Malaysian,
            Lottery::HanoiSet,
            Lottery::HanoiVipSet,
            Lottery::HanoiSpecialSet,
            Lottery::MalaySet,
            Lottery::HanoiSpecial,
            Lottery::StockKorea,
            Lottery::StockChina,
            Lottery::StockDowJones,
            Lottery::StockDowJonesVip,
            Lottery::StockTaiwan,
            Lottery::StockBritish,
            Lottery::StockIndia,
            Lottery::StockHangSeng,
            Lottery::StockEgyptian,
            Lottery::StockNikkei,
            Lottery::StockSingapore,
            Lottery::StockThai,
            Lottery::StockGerman,
            Lottery::StockRussian,
            Lottery::StockCollect,
            Lottery::Zodiac,
            Lottery::PingPong2,
            Lottery::PingPong3,
            Lottery::PingPong6,
            Lottery::HanoiStarSet,
            Lottery::HanoiStar,
            Lottery::HanoiTv,
            Lottery::HanoiTvSet,
            Lottery::LaoExtra,
            Lottery::LaoExtraSet,
            Lottery::LaoHd,
            Lottery::LaoHdSet,
            Lottery::LaoTv,
            Lottery::LaoTvSet,
        ];
        assert(list@ =~= Lottery::all());
        list
    }

    /// The variant that settings name `value`, if there is one.
    pub fn from_name(value: &str) -> (found: Option<Lottery>)
        ensures
            found == Lottery::named(value@),
    {
        if same_text(value, "thailotto") {
            Some(Lottery::Thai)
        } else if same_text(value, "laoslotto") {
            Some(Lottery::Lao)
        } else if same_text(value, "hanoylotto") {
            Some(Lottery::Hanoi)
        } else if same_text(value, "hanoylottovip") {
            Some(Lottery::HanoiVip)
        } else if same_text(value, "baaclotto") {
            Some(Lottery::Baac)
        } else if same_text(value, "gsblotto") {
            Some(Lottery::Gsb)
        } else if same_text(value, "pingponglotto") {
            Some(Lottery::PingPong)
        } else if same_text(value, "laoslotto_set") {
            Some(Lottery::LaoSet)
        } else if same_text(value, "yeekeelotto") {
            Some(Lottery::Yeekee)
        } else if same_text(value, "malaylotto") {
            Some(Lottery::Malaysian)
        } else if same_text(value, "hanoylotto_set") {
            Some(Lottery::HanoiSet)
        } else if same_text(value, "hanoylottovip_set") {
            Some(Lottery::HanoiVipSet)
        } else if same_text(value, "hanoylottospecial_set") {
            Some(Lottery::HanoiSpecialSet)
        } else if same_text(value, "malaylotto_set") {
            Some(Lottery::MalaySet)
        } else if same_text(value, "hanoylottospecial") {
            Some(Lottery::HanoiSpecial)
        } else if same_text(value, "stockkorea") {
            Some(Lottery::StockKorea)
        } else if same_text(value, "stockchina") {
            Some(Lottery::StockChina)
        } else if same_text(value, "stockdowjones") {
            Some(Lottery::StockDowJones)
        } else if same_text(value, "stockdowjonesvip") {
            Some(Lottery::StockDowJonesVip)
        } else if same_text(value, "stocktaiwan") {
            Some(Lottery::StockTaiwan)
        } else if same_text(value, "stockengland") {
            Some(Lottery::StockBritish)
        } else if same_text(value, "stockindia") {
            Some(Lottery::StockIndia)
        } else if same_text(value, "stockhangseng") {
            Some(Lottery::StockHangSeng)
        } else if same_text(value, "stockegypt") {
            Some(Lottery::StockEgyptian)
        } else if same_text(value, "stocknikkei") {
            Some(Lottery::StockNikkei)
        } else if same_text(value, "stocksingapore") {
            Some(Lottery::StockSingapore)
        } else if same_text(value, "stockthai") {
            Some(Lottery::StockThai)
        } else if same_text(value, "stockgerman") {
            Some(Lottery::StockGerman)
        } else if same_text(value, "stockrussia") {
            Some(Lottery::StockRussian)
        } else if same_text(value, "stock") {
            Some(Lottery::StockCollect)
        } else if same_text(value, "zodiaclotto") {
            Some(Lottery::Zodiac)
        } else if same_text(value, "pingponglotto2") {
            Some(Lottery::PingPong2)
        } else if same_text(value, "pingponglotto3") {
            Some(Lottery::PingPong3)
        } else if same_text(value, "pingponglotto6") {
            Some(Lottery::PingPong6)
        } else if same_text(value, "hanoylottostar_set") {
            Some(Lottery::HanoiStarSet)
        } else if same_text(value, "hanoylottostar") {
            Some(Lottery::HanoiStar)
        } else if same_text(value, "hanoylottotv") {
            Some(Lottery::HanoiTv)
        } else if same_text(value, "hanoylottotv_set") {
            Some(Lottery::HanoiTvSet)
        } else if same_text(value, "laoslottoextra") {
            Some(Lottery::LaoExtra)
        } else if same_text(value, "laoslottoextra_set") {
            Some(Lottery::LaoExtraSet)
        } else if same_text(value, "laoslottohd") {
            Some(Lottery::LaoHd)
        } else if same_text(value, "laoslottohd_set") {
            Some(Lottery::LaoHdSet)
        } else if same_text(value, "laoslottotv") {
            Some(Lottery::LaoTv)
        } else if same_text(value, "laoslottotv_set") {
            Some(Lottery::LaoTvSet)
        } else {
            None
        }
    }

    /// This provider as a [`GameProvider`].
    pub fn into_game_provider(self) -> (provider: GameProvider)
        ensures
            provider == GameProvider::Lottery(self),
    {
        GameProvider::Lottery(self)
    }

    /// [`Lottery::all`] leaves no variant out.
    pub proof fn lemma_all_is_complete(self)
        ensures
            Lottery::all().contains(self),
    {
        let all = Lottery::all();
        match self {
            Lottery::Thai => assert(all[0] == self),
            Lottery::Lao => assert(all[1] == self),
            Lottery::Hanoi => assert(all[2] == self),
            Lottery::HanoiVip => assert(all[3] == self),
            Lottery::Baac => assert(all[4] == self),
            Lottery::Gsb => assert(all[5] == self),
            Lottery::PingPong => assert(all[6] == self),
            Lottery::LaoSet => assert(all[7] == self),
            Lottery::Yeekee => assert(all[8] == self),
            Lottery::Malaysian => assert(all[9] == self),
            Lottery::HanoiSet => assert(all[10] == self),
            Lottery::HanoiVipSet => assert(all[11] == self),
            Lottery::HanoiSpecialSet => assert(all[12] == self),
            Lottery::MalaySet => assert(all[13] == self),
            Lottery::HanoiSpecial => assert(all[14] == self),
            Lottery::StockKorea => assert(all[15] == self),
            Lottery::StockChina => assert(all[16] == self),
            Lottery::StockDowJones => assert(all[17] == self),
            Lottery::StockDowJonesVip => assert(all[18] == self),
            Lottery::StockTaiwan => assert(all[19] == self),
            Lottery::StockBritish => assert(all[20] == self),
            Lottery::StockIndia => assert(all[21] == self),
            Lottery::StockHangSeng => assert(all[22] == self),
            Lottery::StockEgyptian => assert(all[23] == self),
            Lottery::StockNikkei => assert(all[24] == self),
            Lottery::StockSingapore => assert(all[25] == self),
            Lottery::StockThai => assert(all[26] == self),
            Lottery::StockGerman => assert(all[27] == self),
            Lottery::StockRussian => assert(all[28] == self),
            Lottery::StockCollect => assert(all[29] == self),
            Lottery::Zodiac => assert(all[30] == self),
            Lottery::PingPong2 => assert(all[31] == self),
            Lottery::PingPong3 => assert(all[32] == self),
            Lottery::PingPong6 => assert(all[33] == self),
            Lottery::HanoiStarSet => assert(all[34] == self),
            Lottery::HanoiStar => assert(all[35] == self),
            Lottery::HanoiTv => assert(all[36] == self),
            Lottery::HanoiTvSet => assert(all[37] == self),
            Lottery::LaoExtra => assert(all[38] == self),
            Lottery::LaoExtraSet => assert(all[39] == self),
            Lottery::LaoHd => assert(all[40] == self),
            Lottery::LaoHdSet => assert(all[41] == self),
            Lottery::LaoTv => assert(all[42] == self),
            Lottery::LaoTvSet => assert(all[43] == self),
        }
    }
}

/// The kinds of sports bets.
#[derive(Debug, Clone, Copy, PartialEq, Eq, Structural, Hash)]
pub enum Sportsbook {
    SingleLive,
    SingleNonLive,
    Combo,
    Parlay,
}

impl Sportsbook {
    /// The stored name.
    pub open spec fn name(self) -> Seq<char> {
        match self {
            Sportsbook::SingleLive => "single_live"@,
            Sportsbook::SingleNonLive => "single_non_live"@,
            Sportsbook::Combo => "combo"@,
            Sportsbook::Parlay => "parlay"@,
        }
    }

    /// Every variant, in the order of declaration.
    pub open spec fn all() -> Seq<Sportsbook> {
        seq![
            Sportsbook::SingleLive,
            Sportsbook::SingleNonLive,
            Sportsbook::Combo,
            Sportsbook::Parlay,
        ]
    }

    /// The variant that settings name `value`, if there is one.
    pub open spec fn named(value: Seq<char>) -> Option<Sportsbook> {
        if value == "single_live"@ {
            Some(Sportsbook::SingleLive)
        } else if value == "single_non_live"@ {
            Some(Sportsbook::SingleNonLive)
        } else if value == "combo"@ {
            Some(Sportsbook::Combo)
        } else if value == "parlay"@ {
            Some(Sportsbook::Parlay)
        } else {
            None
        }
    }

    /// The stored name.
    pub fn as_ref(&self) -> (name: &'static str)
        ensures
            name@ == self.name(),
    {
        match self {
            Sportsbook::SingleLive => "single_live",
            Sportsbook::SingleNonLive => "single_non_live",
            Sportsbook::Combo => "combo",
            Sportsbook::Parlay => "parlay",
        }
    }

    /// Every variant, in the order of declaration.
    pub fn variants() -> (list: Vec<Sportsbook>)
        ensures
            list@ == Sportsbook::all(),
    {
        let list = vec![
            Sportsbook::SingleLive,
            Sportsbook::SingleNonLive,
            Sportsbook::Combo,
            Sportsbook::Parlay,
        ];
        assert(list@ =~= Sportsbook::all());
        list
    }

    /// The variant that settings name `value`, if there is one.
    pub fn from_name(value: &str) -> (found: Option<Sportsbook>)
        ensures
            found == Sportsbook::named(value@),
    {
        if same_text(value, "single_live") {
            Some(Sportsbook::SingleLive)
        } else if same_text(value, "single_non_live") {
            Some(Sportsbook::SingleNonLive)
        } else if same_text(value, "combo") {
            Some(Sportsbook::Combo)
        } else if same_text(value, "parlay") {
            Some(Sportsbook::Parlay)
        } else {
            None
        }
    }

    /// This provider as a [`GameProvider`].
    pub fn into_game_provider(self) -> (provider: GameProvider)
        ensures
            provider == GameProvider::Sport(self),
    {
        GameProvider::Sport(self)
    }

    /// [`Sportsbook::all`] leaves no variant out.
    pub proof fn lemma_all_is_complete(self)
        ensures
            Sportsbook::all().contains(self),
    {
        let all = Sportsbook::all();
        match self {
            Sportsbook::SingleLive => assert(all[0] == self),
            Sportsbook::SingleNonLive => assert(all[1] == self),
            Sportsbook::Combo => assert(all[2] == self),
            Sportsbook::Parlay => assert(all[3] == self),
        }
    }
}

/// A game provider: a product and one of its providers.
#[derive(Debug, Clone, Copy, PartialEq, Eq, Structural, Hash)]
pub enum GameProvider {
    LiveCasino(LiveCasinoProvider),
    Slot(SlotProvider),
    Lottery(Lottery),
    Sport(Sportsbook),
    OnlineCasino(OnlineCasinoProvider),
}

impl GameProvider {
    /// The stored name: that of the provider within its product.
    pub open spec fn name(self) -> Seq<char> {
        match self {
            GameProvider::Slot(p) => p.name(),
            GameProvider::OnlineCasino(p) => p.name(),
            GameProvider::LiveCasino(p) => p.name(),
            GameProvider::Sport(p) => p.name(),
            GameProvider::Lottery(p) => p.name(),
        }
    }

    /// The provider that settings name `value`, if there is one. Live
    /// casinos are looked up first, then online casinos, slots, lotteries
    /// and sports bets.
    pub open spec fn named(value: Seq<char>) -> Option<GameProvider> {
        if let Some(p) = LiveCasinoProvider::named(value) {
            Some(GameProvider::LiveCasino(p))
        } else if let Some(p) = OnlineCasinoProvider::named(value) {
            Some(GameProvider::OnlineCasino(p))
        } else if let Some(p) = SlotProvider::named(value) {
            Some(GameProvider::Slot(p))
        } else if let Some(p) = Lottery::named(value) {
            Some(GameProvider::Lottery(p))
        } else if let Some(p) = Sportsbook::named(value) {
            Some(GameProvider::Sport(p))
        } else {
            None
        }
    }

    /// The stored name.
    pub fn as_ref(&self) -> (name: &'static str)
        ensures
            name@ == self.name(),
    {
        match self {
            GameProvider::Slot(p) => p.as_ref(),
            GameProvider::OnlineCasino(p) => p.as_ref(),
            GameProvider::LiveCasino(p) => p.as_ref(),
            GameProvider::Sport(p) => p.as_ref(),
            GameProvider::Lottery(p) => p.as_ref(),
        }
    }

    /// Reads a provider from the name that settings give it. A name that
    /// belongs to no provider is an error, which holds the name.
    pub fn from_str(value: &str) -> (result: Result<GameProvider, ArchiveError>)
        ensures
            match GameProvider::named(value@) {
                Some(provider) => result == Ok::<GameProvider, ArchiveError>(provider),
                None => result matches Err(ArchiveError::UnexpectedProviderName { name })
                    && name@ == value@,
            },
    {
        if let Some(p) = LiveCasinoProvider::from_name(value) {
            Ok(GameProvider::LiveCasino(p))
        } else if let Some(p) = OnlineCasinoProvider::from_name(value) {
            Ok(GameProvider::OnlineCasino(p))
        } else if let Some(p) = SlotProvider::from_name(value) {
            Ok(GameProvider::Slot(p))
        } else if let Some(p) = Lottery::from_name(value) {
            Ok(GameProvider::Lottery(p))
        } else if let Some(p) = Sportsbook::from_name(value) {
            Ok(GameProvider::Sport(p))
        } else {
            Err(ArchiveError::UnexpectedProviderName { name: String::from_str(value) })
        }
    }
}

/// The providers of the four products whose providers keep a table of
/// their own: live casinos, online casinos, slots and sports bets, each in
/// the order of declaration.
pub open spec fn game_providers() -> Seq<GameProvider> {
    LiveCasinoProvider::all().map_values(|p: LiveCasinoProvider| GameProvider::LiveCasino(p))
        + OnlineCasinoProvider::all().map_values(
        |p: OnlineCasinoProvider| GameProvider::OnlineCasino(p),
    ) + SlotProvider::all().map_values(|p: SlotProvider| GameProvider::Slot(p))
        + Sportsbook::all().map_values(|p: Sportsbook| GameProvider::Sport(p))
}

/// The providers whose bets are drained: those of [`game_providers`] with
/// the lotteries between the slots and the sports bets.
pub open spec fn drained_providers() -> Seq<GameProvider> {
    LiveCasinoProvider::all().map_values(|p: LiveCasinoProvider| GameProvider::LiveCasino(p))
        + OnlineCasinoProvider::all().map_values(
        |p: OnlineCasinoProvider| GameProvider::OnlineCasino(p),
    ) + SlotProvider::all().map_values(|p: SlotProvider| GameProvider::Slot(p))
        + Lottery::all().map_values(|p: Lottery| GameProvider::Lottery(p))
        + Sportsbook::all().map_values(|p: Sportsbook| GameProvider::Sport(p))
}

/// Appends the live casinos to `list`.
fn push_live_casinos(list: &mut Vec<GameProvider>)
    ensures
        final(list)@ == old(list)@ + LiveCasinoProvider::all().map_values(
            |p: LiveCasinoProvider| GameProvider::LiveCasino(p),
        ),
{
    let variants = LiveCasinoProvider::variants();
    let ghost mapped = LiveCasinoProvider::all().map_values(
        |p: LiveCasinoProvider| GameProvider::LiveCasino(p),
    );
    let mut i: usize = 0;
    while i < variants.len()
        invariant
            i <= variants@.len(),
            variants@ == LiveCasinoProvider::all(),
            mapped == LiveCasinoProvider::all().map_values(
                |p: LiveCasinoProvider| GameProvider::LiveCasino(p),
            ),
            list@ == old(list)@ + mapped.take(i as int),
        decreases variants@.len() - i,
    {
        list.push(variants[i].into_game_provider());
        i += 1;
        assert(list@ =~= old(list)@ + mapped.take(i as int));
    }
    assert(mapped.take(i as int) =~= mapped);
}

/// Appends the online casinos to `list`.
fn push_online_casinos(list: &mut Vec<GameProvider>)
    ensures
        final(list)@ == old(list)@ + OnlineCasinoProvider::all().map_values(
            |p: OnlineCasinoProvider| GameProvider::OnlineCasino(p),
        ),
{
    let variants = OnlineCasinoProvider::variants();
    let ghost mapped = OnlineCasinoProvider::all().map_values(
        |p: OnlineCasinoProvider| GameProvider::OnlineCasino(p),
    );
    let mut i: usize = 0;
    while i < variants.len()
        invariant
            i <= variants@.len(),
            variants@ == OnlineCasinoProvider::all(),
            mapped == OnlineCasinoProvider::all().map_values(
                |p: OnlineCasinoProvider| GameProvider::OnlineCasino(p),
            ),
            list@ == old(list)@ + mapped.take(i as int),
        decreases variants@.len() - i,
    {
        list.push(variants[i].into_game_provider());
        i += 1;
        assert(list@ =~= old(list)@ + mapped.take(i as int));
    }
    assert(mapped.take(i as int) =~= mapped);
}

/// Appends the slots to `list`.
fn push_slots(list: &mut Vec<GameProvider>)
    ensures
        final(list)@ == old(list)@ + SlotProvider::all().map_values(
            |p: SlotProvider| GameProvider::Slot(p),
        ),
{
    let variants = SlotProvider::variants();
    let ghost mapped = SlotProvider::all().map_values(|p: SlotProvider| GameProvider::Slot(p));
    let mut i: usize = 0;
    while i < variants.len()
        invariant
            i <= variants@.len(),
            variants@ == SlotProvider::all(),
            mapped == SlotProvider::all().map_values(|p: SlotProvider| GameProvider::Slot(p)),
            list@ == old(list)@ + mapped.take(i as int),
        decreases variants@.len() - i,
    {
        list.push(variants[i].into_game_provider());
        i += 1;
        assert(list@ =~= old(list)@ + mapped.take(i as int));
    }
    assert(mapped.take(i as int) =~= mapped);
}

/// Appends the lotteries to `list`.
fn push_lotteries(list: &mut Vec<GameProvider>)
    ensures
        final(list)@ == old(list)@ + Lottery::all().map_values(
            |p: Lottery| GameProvider::Lottery(p),
        ),
{
    let variants = Lottery::variants();
    let ghost mapped = Lottery::all().map_values(|p: Lottery| GameProvider::Lottery(p));
    let mut i: usize = 0;
    while i < variants.len()
        invariant
            i <= variants@.len(),
            variants@ == Lottery::all(),
            mapped == Lottery::all().map_values(|p: Lottery| GameProvider::Lottery(p)),
            list@ == old(list)@ + mapped.take(i as int),
        decreases variants@.len() - i,
    {
        list.push(variants[i].into_game_provider());
        i += 1;
        assert(list@ =~= old(list)@ + mapped.take(i as int));
    }
    assert(mapped.take(i as int) =~= mapped);
}

/// Appends the kinds of sports bets to `list`.
fn push_sportsbooks(list: &mut Vec<GameProvider>)
    ensures
        final(list)@ == old(list)@ + Sportsbook::all().map_values(
            |p: Sportsbook| GameProvider::Sport(p),
        ),
{
    let variants = Sportsbook::variants();
    let ghost mapped = Sportsbook::all().map_values(|p: Sportsbook| GameProvider::Sport(p));
    let mut i: usize = 0;
    while i < variants.len()
        invariant
            i <= variants@.len(),
            variants@ == Sportsbook::all(),
            mapped == Sportsbook::all().map_values(|p: Sportsbook| GameProvider::Sport(p)),
            list@ == old(list)@ + mapped.take(i as int),
        decreases variants@.len() - i,
    {
        list.push(variants[i].into_game_provider());
        i += 1;
        assert(list@ =~= old(list)@ + mapped.take(i as int));
    }
    assert(mapped.take(i as int) =~= mapped);
}

/// The providers of live casinos, online casinos, slots and sports bets.
pub fn get_game_providers() -> (providers: Vec<GameProvider>)
    ensures
        providers@ == game_providers(),
{
    let mut providers: Vec<GameProvider> = Vec::new();
    push_live_casinos(&mut providers);
    push_online_casinos(&mut providers);
    push_slots(&mut providers);
    push_sportsbooks(&mut providers);
    assert(providers@ =~= game_providers());
    providers
}

/// The providers whose bets are drained, in the order of draining.
pub fn get_drained_providers() -> (providers: Vec<GameProvider>)
    ensures
        providers@ == drained_providers(),
{
    let mut providers: Vec<GameProvider> = Vec::new();
    push_live_casinos(&mut providers);
    push_online_casinos(&mut providers);
    push_slots(&mut providers);
    push_lotteries(&mut providers);
    push_sportsbooks(&mut providers);
    assert(providers@ =~= drained_providers());
    providers
}

} // verus!
