//! The closed sets of values that rows and settings hold.

use crate::error::ArchiveError;
use crate::text::same_text;
use vstd::prelude::*;
use vstd::string::*;

verus! {

/// The status of a bet.
#[derive(Debug, Clone, Copy, PartialEq, Eq, Structural, Hash)]
pub enum BetStatus {
    Active,
    Pending,
    Closed,
    Cancelled,
    Suspended,
    Void,
}

impl BetStatus {
    /// The stored name.
    pub open spec fn name(self) -> Seq<char> {
        match self {
            BetStatus::Active => "ACTIVE"@,
            BetStatus::Pending => "PENDING"@,
            BetStatus::Closed => "CLOSED"@,
            BetStatus::Cancelled => "CANCELLED"@,
            BetStatus::Suspended => "SUSPENDED"@,
            BetStatus::Void => "VOID"@,
        }
    }

    /// The stored name.
    pub fn as_ref(&self) -> (name: &'static str)
        ensures
            name@ == self.name(),
    {
        match self {
            BetStatus::Active => "ACTIVE",
            BetStatus::Pending => "PENDING",
            BetStatus::Closed => "CLOSED",
            BetStatus::Cancelled => "CANCELLED",
            BetStatus::Suspended => "SUSPENDED",
            BetStatus::Void => "VOID",
        }
    }

    /// The stored name, as a text of its own.
    pub fn to_string(&self) -> (name: String)
        ensures
            name@ == self.name(),
    {
        String::from_str(self.as_ref())
    }

    /// Every variant, in the order of declaration.
    pub open spec fn all() -> Seq<BetStatus> {
        seq![
            BetStatus::Active,
            BetStatus::Pending,
            BetStatus::Closed,
            BetStatus::Cancelled,
            BetStatus::Suspended,
            BetStatus::Void,
        ]
    }

    /// Every variant, in the order of declaration.
    pub fn variants() -> (list: Vec<BetStatus>)
        ensures
            list@ == BetStatus::all(),
    {
        let list = vec![
            BetStatus::Active,
            BetStatus::Pending,
            BetStatus::Closed,
            BetStatus::Cancelled,
            BetStatus::Suspended,
            BetStatus::Void,
        ];
        assert(list@ =~= BetStatus::all());
        list
    }

    /// The variant with the stored name `value`, if there is one.
    pub open spec fn named(value: Seq<char>) -> Option<BetStatus> {
        if value == "ACTIVE"@ {
            Some(BetStatus::Active)
        } else if value == "PENDING"@ {
            Some(BetStatus::Pending)
        } else if value == "CLOSED"@ {
            Some(BetStatus::Closed)
        } else if value == "CANCELLED"@ {
            Some(BetStatus::Cancelled)
        } else if value == "SUSPENDED"@ {
            Some(BetStatus::Suspended)
        } else if value == "VOID"@ {
            Some(BetStatus::Void)
        } else {
            None
        }
    }

    /// The variant with the stored name `value`, if there is one.
    pub fn from_name(value: &str) -> (found: Option<BetStatus>)
        ensures
            found == BetStatus::named(value@),
    {
        if same_text(value, "ACTIVE") {
            Some(BetStatus::Active)
        } else if same_text(value, "PENDING") {
            Some(BetStatus::Pending)
        } else if same_text(value, "CLOSED") {
            Some(BetStatus::Closed)
        } else if same_text(value, "CANCELLED") {
            Some(BetStatus::Cancelled)
        } else if same_text(value, "SUSPENDED") {
            Some(BetStatus::Suspended)
        } else if same_text(value, "VOID") {
            Some(BetStatus::Void)
        } else {
            None
        }
    }

    /// Reads a status from its stored name. A text that names no status is
    /// an error, which holds the text.
    pub fn from_str(value: &str) -> (result: Result<BetStatus, ArchiveError>)
        ensures
            match BetStatus::named(value@) {
                Some(status) => result == Ok::<BetStatus, ArchiveError>(status),
                None => result matches Err(ArchiveError::InvalidStatus { status })
                    && status@ == value@,
            },
    {
        match BetStatus::from_name(value) {
            Some(status) => Ok(status),
            None => Err(ArchiveError::InvalidStatus { status: String::from_str(value) }),
        }
    }

    /// Whether a bet of this status is still open: such a bet is never
    /// drained.
    pub open spec fn is_open(self) -> bool {
        self == BetStatus::Active || self == BetStatus::Pending
    }

    /// Whether a bet of this status is still open.
    pub fn still_open(&self) -> (open: bool)
        ensures
            open == self.is_open(),
    {
        match self {
            BetStatus::Active => true,
            BetStatus::Pending => true,
            _ => false,
        }
    }
}

/// The seven ranks of the reporting hierarchy, from the top down.
#[derive(Debug, Clone, Copy, PartialEq, Eq, Structural, Hash)]
pub enum PositionEnum {
    Owner,
    Company,
    Shareholder,
    Senior,
    MasterAgent,
    Agent,
    Player,
}

impl PositionEnum {
    /// The name of the rank.
    pub open spec fn name(self) -> Seq<char> {
        match self {
            PositionEnum::Owner => "Owner"@,
            PositionEnum::Company => "Company"@,
            PositionEnum::Shareholder => "Shareholder"@,
            PositionEnum::Senior => "Senior"@,
            PositionEnum::MasterAgent => "MasterAgent"@,
            PositionEnum::Agent => "Agent"@,
            PositionEnum::Player => "Player"@,
        }
    }

    /// The name of the rank.
    pub fn as_ref(&self) -> (name: &'static str)
        ensures
            name@ == self.name(),
    {
        match self {
            PositionEnum::Owner => "Owner",
            PositionEnum::Company => "Company",
            PositionEnum::Shareholder => "Shareholder",
            PositionEnum::Senior => "Senior",
            PositionEnum::MasterAgent => "MasterAgent",
            PositionEnum::Agent => "Agent",
            PositionEnum::Player => "Player",
        }
    }

    /// The name of the rank.
    pub fn to_string(&self) -> (name: String)
        ensures
            name@ == self.name(),
    {
        String::from_str(self.as_ref())
    }

    /// Every variant, in the order of declaration.
    pub open spec fn all() -> Seq<PositionEnum> {
        seq![
            PositionEnum::Owner,
            PositionEnum::Company,
            PositionEnum::Shareholder,
            PositionEnum::Senior,
            PositionEnum::MasterAgent,
            PositionEnum::Agent,
            PositionEnum::Player,
        ]
    }

    /// Every variant, in the order of declaration.
    pub fn variants() -> (list: Vec<PositionEnum>)
        ensures
            list@ == PositionEnum::all(),
    {
        let list = vec![
            PositionEnum::Owner,
            PositionEnum::Company,
            PositionEnum::Shareholder,
            PositionEnum::Senior,
            PositionEnum::MasterAgent,
            PositionEnum::Agent,
            PositionEnum::Player,
        ];
        assert(list@ =~= PositionEnum::all());
        list
    }

    /// The rank as a number: 0 for the owner down to 6 for the player. It
    /// is the place of the rank's amount in each per-rank array of a bet.
    pub open spec fn rank(self) -> int {
        match self {
            PositionEnum::Owner => 0,
            PositionEnum::Company => 1,
            PositionEnum::Shareholder => 2,
            PositionEnum::Senior => 3,
            PositionEnum::MasterAgent => 4,
            PositionEnum::Agent => 5,
            PositionEnum::Player => 6,
        }
    }

    /// The rank as a place in a per-rank array.
    pub fn index(&self) -> (place: usize)
        ensures
            place == self.rank(),
            place < 7,
    {
        match self {
            PositionEnum::Owner => 0,
            PositionEnum::Company => 1,
            PositionEnum::Shareholder => 2,
            PositionEnum::Senior => 3,
            PositionEnum::MasterAgent => 4,
            PositionEnum::Agent => 5,
            PositionEnum::Player => 6,
        }
    }

    /// The rank with the given number, if there is one.
    pub fn from_rank(value: i16) -> (position: Option<PositionEnum>)
        ensures
            position is Some <==> 0 <= value <= 6,
            position matches Some(p) ==> p.rank() == value,
    {
        match value {
            0 => Some(PositionEnum::Owner),
            1 => Some(PositionEnum::Company),
            2 => Some(PositionEnum::Shareholder),
            3 => Some(PositionEnum::Senior),
            4 => Some(PositionEnum::MasterAgent),
            5 => Some(PositionEnum::Agent),
            6 => Some(PositionEnum::Player),
            _ => None,
        }
    }

    /// The rank with the given number, which must be one of the seven.
    pub fn from(value: i16) -> (position: PositionEnum)
        requires
            0 <= value <= 6,
        ensures
            position.rank() == value,
    {
        match PositionEnum::from_rank(value) {
            Some(position) => position,
            None => PositionEnum::Player,
        }
    }

    /// Two ranks with the same number are the same rank.
    pub proof fn lemma_rank_injective(self, other: PositionEnum)
        requires
            self.rank() == other.rank(),
        ensures
            self == other,
    {
    }
}

/// The languages of the platform.
#[derive(Debug, Clone, Copy, PartialEq, Eq, Structural, Hash)]
pub enum Language {
    English,
    Thai,
    Chinese,
    Malay,
    Indonesian,
    Laotian,
    Vietnamese,
    Tagalog,
    Hindi,
    Korean,
    Japanese,
}

impl Language {
    /// The two-letter code.
    pub open spec fn name(self) -> Seq<char> {
        match self {
            Language::English => "en"@,
            Language::Thai => "th"@,
            Language::Chinese => "zh"@,
            Language::Malay => "ms"@,
            Language::Indonesian => "id"@,
            Language::Laotian => "lo"@,
            Language::Vietnamese => "vi"@,
            Language::Tagalog => "tl"@,
            Language::Hindi => "hi"@,
            Language::Korean => "ko"@,
            Language::Japanese => "ja"@,
        }
    }

    /// The two-letter code.
    pub fn as_ref(&self) -> (name: &'static str)
        ensures
            name@ == self.name(),
    {
        match self {
            Language::English => "en",
            Language::Thai => "th",
            Language::Chinese => "zh",
            Language::Malay => "ms",
            Language::Indonesian => "id",
            Language::Laotian => "lo",
            Language::Vietnamese => "vi",
            Language::Tagalog => "tl",
            Language::Hindi => "hi",
            Language::Korean => "ko",
            Language::Japanese => "ja",
        }
    }

    /// The two-letter code.
    pub fn to_string(&self) -> (name: String)
        ensures
            name@ == self.name(),
    {
        String::from_str(self.as_ref())
    }
}

/// The kinds of games that providers offer.
#[derive(Debug, Clone, Copy, PartialEq, Eq, Structural, Hash)]
pub enum ProviderGameKind {
    Baccarat,
    DragonTiger,
    SicBo,
    Roulette,
    Bull,
    ThreeCards,
    RedBlueDuel,
    Slot,
    Fishing,
    Poker,
    BlackJack,
    Joker,
    Online,
    Multiplayer,
    FatTan,
}

impl ProviderGameKind {
    /// The stored name.
    pub open spec fn name(self) -> Seq<char> {
        match self {
            ProviderGameKind::Baccarat => "baccarat"@,
            ProviderGameKind::DragonTiger => "dragontiger"@,
            ProviderGameKind::SicBo => "sicbo"@,
            ProviderGameKind::Roulette => "roulette"@,
            ProviderGameKind::Bull => "bull"@,
            ProviderGameKind::ThreeCards => "three_cards"@,
            ProviderGameKind::RedBlueDuel => "red_blue_duel"@,
            ProviderGameKind::Slot => "slot"@,
            ProviderGameKind::Fishing => "fishing"@,
            ProviderGameKind::Poker => "poker"@,
            ProviderGameKind::BlackJack => "blackjack"@,
            ProviderGameKind::Joker => "joker"@,
            ProviderGameKind::Online => "online"@,
            ProviderGameKind::Multiplayer => "multiplayer"@,
            ProviderGameKind::FatTan => "fan_tan"@,
        }
    }

    /// The stored name.
    pub fn as_ref(&self) -> (name: &'static str)
        ensures
            name@ == self.name(),
    {
        match self {
            ProviderGameKind::Baccarat => "baccarat",
            ProviderGameKind::DragonTiger => "dragontiger",
            ProviderGameKind::SicBo => "sicbo",
            ProviderGameKind::Roulette => "roulette",
            ProviderGameKind::Bull => "bull",
            ProviderGameKind::ThreeCards => "three_cards",
            ProviderGameKind::RedBlueDuel => "red_blue_duel",
            ProviderGameKind::Slot => "slot",
            ProviderGameKind::Fishing => "fishing",
            ProviderGameKind::Poker => "poker",
            ProviderGameKind::BlackJack => "blackjack",
            ProviderGameKind::Joker => "joker",
            ProviderGameKind::Online => "online",
            ProviderGameKind::Multiplayer => "multiplayer",
            ProviderGameKind::FatTan => "fan_tan",
        }
    }

    /// The stored name, as a text of its own.
    pub fn to_string(&self) -> (name: String)
        ensures
            name@ == self.name(),
    {
        String::from_str(self.as_ref())
    }

    /// Every variant, in the order of declaration.
    pub open spec fn all() -> Seq<ProviderGameKind> {
        seq![
            ProviderGameKind::Baccarat,
            ProviderGameKind::DragonTiger,
            ProviderGameKind::SicBo,
            ProviderGameKind::Roulette,
            ProviderGameKind::Bull,
            ProviderGameKind::ThreeCards,
            ProviderGameKind::RedBlueDuel,
            ProviderGameKind::Slot,
            ProviderGameKind::Fishing,
            ProviderGameKind::Poker,
            ProviderGameKind::BlackJack,
            ProviderGameKind::Joker,
            ProviderGameKind::Online,
            ProviderGameKind::Multiplayer,
            ProviderGameKind::FatTan,
        ]
    }

    /// Every variant, in the order of declaration.
    pub fn variants() -> (list: Vec<ProviderGameKind>)
        ensures
            list@ == ProviderGameKind::all(),
    {
        let list = vec![
            ProviderGameKind::Baccarat,
            ProviderGameKind::DragonTiger,
            ProviderGameKind::SicBo,
            ProviderGameKind::Roulette,
            ProviderGameKind::Bull,
            ProviderGameKind::ThreeCards,
            ProviderGameKind::RedBlueDuel,
            ProviderGameKind::Slot,
            ProviderGameKind::Fishing,
            ProviderGameKind::Poker,
            ProviderGameKind::BlackJack,
            ProviderGameKind::Joker,
            ProviderGameKind::Online,
            ProviderGameKind::Multiplayer,
            ProviderGameKind::FatTan,
        ];
        assert(list@ =~= ProviderGameKind::all());
        list
    }

    /// The variant with the stored name `value`, if there is one.
    pub open spec fn named(value: Seq<char>) -> Option<ProviderGameKind> {
        if value == "baccarat"@ {
            Some(ProviderGameKind::Baccarat)
        } else if value == "dragontiger"@ {
            Some(ProviderGameKind::DragonTiger)
        } else if value == "sicbo"@ {
            Some(ProviderGameKind::SicBo)
        } else if value == "roulette"@ {
            Some(ProviderGameKind::Roulette)
        } else if value == "bull"@ {
            Some(ProviderGameKind::Bull)
        } else if value == "three_cards"@ {
            Some(ProviderGameKind::ThreeCards)
        } else if value == "red_blue_duel"@ {
            Some(ProviderGameKind::RedBlueDuel)
        } else if value == "slot"@ {
            Some(ProviderGameKind::Slot)
        } else if value == "fishing"@ {
            Some(ProviderGameKind::Fishing)
        } else if value == "poker"@ {
            Some(ProviderGameKind::Poker)
        } else if value == "blackjack"@ {
            Some(ProviderGameKind::BlackJack)
        } else if value == "joker"@ {
            Some(ProviderGameKind::Joker)
        } else if value == "online"@ {
            Some(ProviderGameKind::Online)
        } else if value == "multiplayer"@ {
            Some(ProviderGameKind::Multiplayer)
        } else if value == "fan_tan"@ {
            Some(ProviderGameKind::FatTan)
        } else {
            None
        }
    }

    /// The variant with the stored name `value`, if there is one.
    pub fn from_name(value: &str) -> (found: Option<ProviderGameKind>)
        ensures
            found == ProviderGameKind::named(value@),
    {
        if same_text(value, "baccarat") {
            Some(ProviderGameKind::Baccarat)
        } else if same_text(value, "dragontiger") {
            Some(ProviderGameKind::DragonTiger)
        } else if same_text(value, "sicbo") {
            Some(ProviderGameKind::SicBo)
        } else if same_text(value, "roulette") {
            Some(ProviderGameKind::Roulette)
        } else if same_text(value, "bull") {
            Some(ProviderGameKind::Bull)
        } else if same_text(value, "three_cards") {
            Some(ProviderGameKind::ThreeCards)
        } else if same_text(value, "red_blue_duel") {
            Some(ProviderGameKind::RedBlueDuel)
        } else if same_text(value, "slot") {
            Some(ProviderGameKind::Slot)
        } else if same_text(value, "fishing") {
            Some(ProviderGameKind::Fishing)
        } else if same_text(value, "poker") {
            Some(ProviderGameKind::Poker)
        } else if same_text(value, "blackjack") {
            Some(ProviderGameKind::BlackJack)
        } else if same_text(value, "joker") {
            Some(ProviderGameKind::Joker)
        } else if same_text(value, "online") {
            Some(ProviderGameKind::Online)
        } else if same_text(value, "multiplayer") {
            Some(ProviderGameKind::Multiplayer)
        } else if same_text(value, "fan_tan") {
            Some(ProviderGameKind::FatTan)
        } else {
            None
        }
    }
}

/// The products of the platform.
#[derive(Debug, Clone, Copy, PartialEq, Eq, Structural, Hash)]
pub enum Product {
    LiveCasino,
    Slot,
    OnlineCasino,
    Sportsbook,
    Lottery,
}

impl Product {
    /// The stored name.
    pub open spec fn name(self) -> Seq<char> {
        match self {
            Product::LiveCasino => "LIVE_CASINO"@,
            Product::Slot => "SLOT"@,
            Product::OnlineCasino => "ONLINE_CASINO"@,
            Product::Sportsbook => "SPORTSBOOK"@,
            Product::Lottery => "LOTTERY"@,
        }
    }

    /// The stored name.
    pub fn as_ref(&self) -> (name: &'static str)
        ensures
            name@ == self.name(),
    {
        match self {
            Product::LiveCasino => "LIVE_CASINO",
            Product::Slot => "SLOT",
            Product::OnlineCasino => "ONLINE_CASINO",
            Product::Sportsbook => "SPORTSBOOK",
            Product::Lottery => "LOTTERY",
        }
    }

    /// The stored name, as a text of its own.
    pub fn to_string(&self) -> (name: String)
        ensures
            name@ == self.name(),
    {
        String::from_str(self.as_ref())
    }

    /// Every variant, in the order of declaration.
    pub open spec fn all() -> Seq<Product> {
        seq![
            Product::LiveCasino,
            Product::Slot,
            Product::OnlineCasino,
            Product::Sportsbook,
            Product::Lottery,
        ]
    }

    /// Every variant, in the order of declaration.
    pub fn variants() -> (list: Vec<Product>)
        ensures
            list@ == Product::all(),
    {
        let list = vec![
            Product::LiveCasino,
            Product::Slot,
            Product::OnlineCasino,
            Product::Sportsbook,
            Product::Lottery,
        ];
        assert(list@ =~= Product::all());
        list
    }
}

/// The weight of an entry of the system log.
#[derive(Debug, Clone, Copy, PartialEq, Eq, Structural, Hash)]
pub enum ErrorKind {
    Warning,
    Error,
    Critical,
}

impl ErrorKind {
    /// The number under which the weight is stored.
    pub open spec fn code(self) -> int {
        match self {
            ErrorKind::Warning => 100,
            ErrorKind::Error => 200,
            ErrorKind::Critical => 300,
        }
    }

    /// The number under which the weight is stored.
    pub fn as_i32(&self) -> (code: i32)
        ensures
            code == self.code(),
    {
        match self {
            ErrorKind::Warning => 100,
            ErrorKind::Error => 200,
            ErrorKind::Critical => 300,
        }
    }
}

/// The locale in which one slot provider is asked for a language: its own
/// for English, Chinese, Indonesian, Thai and Vietnamese, the English
/// one for every other.
pub open spec fn provider_language(lang: Language) -> Seq<char> {
    match lang {
        Language::Chinese => "zh-CN"@,
        Language::Indonesian => "id-ID"@,
        Language::Thai => "th-TH"@,
        Language::Vietnamese => "vi-VN"@,
        _ => "en-US"@,
    }
}

/// The locale in which one slot provider is asked for a language.
pub fn get_provider_language(lang: Language) -> (locale: &'static str)
    ensures
        locale@ == provider_language(lang),
{
    match lang {
        Language::Chinese => "zh-CN",
        Language::English => "en-US",
        Language::Indonesian => "id-ID",
        Language::Malay => "en-US",
        Language::Thai => "th-TH",
        Language::Vietnamese => "vi-VN",
        Language::Laotian => "en-US",
        Language::Tagalog => "en-US",
        Language::Hindi => "en-US",
        Language::Korean => "en-US",
        Language::Japanese => "en-US",
    }
}

} // verus!
