//! The connectors to the providers that give replay or detail data.
//!
//! Seven connectors exist, each for one provider's interface. Which bets
//! a connector is asked about follows from the provider of the bet.

use crate::enums::ProviderGameKind;
use crate::error::ArchiveError;
use crate::provider::{GameProvider, LiveCasinoProvider, OnlineCasinoProvider, SlotProvider};
use crate::types::{ProviderGameVendorID, ProviderGameVendorLabel, Url};
use vstd::prelude::*;
use vstd::string::*;

verus! {

/// The connectors, one for each provider interface.
#[derive(Debug, Clone, Copy, PartialEq, Eq, Structural, Hash)]
pub enum Connector {
    Ae,
    Ameba,
    Arcadia,
    KingMaker,
    Pragmatic,
    RoyalSlotGaming,
    DotConnections,
}

/// The settings of one provider, as they are stored.
#[derive(Debug)]
pub struct ProviderConfig {
    pub game_provider: GameProvider,
    pub config: String,
}

/// The settings of one game of the Royal Slot Gaming provider.
#[derive(Debug)]
pub struct RoyalSlotGamingGameConfig {
    pub game_label: ProviderGameVendorLabel,
    pub game_id: ProviderGameVendorID,
    pub game_type: ProviderGameKind,
}

/// What the King Maker provider answers when asked for a round's history.
#[derive(Debug)]
pub struct SuccessHistoryResponse {
    pub urls: Vec<Url>,
}

/// Which connectors have their settings.
#[derive(Debug, Clone, Copy, PartialEq, Eq, Structural)]
pub struct ConfiguredConnectors {
    pub ae: bool,
    pub ameba: bool,
    pub arcadia: bool,
    pub king_maker: bool,
    pub pragmatic: bool,
    pub royal_slot_gaming: bool,
    pub dot_connections: bool,
}

impl Connector {
    /// The name of the connector, as failures give it.
    pub open spec fn name(self) -> Seq<char> {
        match self {
            Connector::Ae => "sexy"@,
            Connector::Ameba => "ameba"@,
            Connector::Arcadia => "arcadia"@,
            Connector::KingMaker => "king_maker"@,
            Connector::Pragmatic => "pragmatic"@,
            Connector::RoyalSlotGaming => "royal_slot_gaming"@,
            Connector::DotConnections => "dot_connections"@,
        }
    }

    /// The name of the connector, as failures give it.
    pub fn as_ref(&self) -> (name: &'static str)
        ensures
            name@ == self.name(),
    {
        match self {
            Connector::Ae => "sexy",
            Connector::Ameba => "ameba",
            Connector::Arcadia => "arcadia",
            Connector::KingMaker => "king_maker",
            Connector::Pragmatic => "pragmatic",
            Connector::RoyalSlotGaming => "royal_slot_gaming",
            Connector::DotConnections => "dot_connections",
        }
    }

    /// The connector that the settings of `provider` are for, if there
    /// is one.
    pub open spec fn configured_by(provider: GameProvider) -> Option<Connector> {
        match provider {
            GameProvider::LiveCasino(LiveCasinoProvider::Sexy) => Some(Connector::Ae),
            GameProvider::Slot(SlotProvider::Ameba) => Some(Connector::Ameba),
            GameProvider::OnlineCasino(OnlineCasinoProvider::Arcadia) => Some(Connector::Arcadia),
            GameProvider::OnlineCasino(OnlineCasinoProvider::Kingmaker) => Some(
                Connector::KingMaker,
            ),
            GameProvider::LiveCasino(LiveCasinoProvider::Pragmatic) => Some(Connector::Pragmatic),
            GameProvider::Slot(SlotProvider::RoyalSlotGaming) => Some(Connector::RoyalSlotGaming),
            GameProvider::Slot(SlotProvider::Relax) => Some(Connector::DotConnections),
            _ => None,
        }
    }

    /// The connector that the settings of `provider` are for. Settings of
    /// a provider without a connector are an error.
    pub fn for_config(provider: GameProvider) -> (result: Result<Connector, ArchiveError>)
        ensures
            match Connector::configured_by(provider) {
                Some(connector) => result == Ok::<Connector, ArchiveError>(connector),
                None => result == Err::<Connector, ArchiveError>(
                    ArchiveError::InvalidProviderConfig { provider },
                ),
            },
    {
        match provider {
            GameProvider::LiveCasino(LiveCasinoProvider::Sexy) => Ok(Connector::Ae),
            GameProvider::Slot(SlotProvider::Ameba) => Ok(Connector::Ameba),
            GameProvider::OnlineCasino(OnlineCasinoProvider::Arcadia) => Ok(Connector::Arcadia),
            GameProvider::OnlineCasino(OnlineCasinoProvider::Kingmaker) => Ok(
                Connector::KingMaker,
            ),
            GameProvider::LiveCasino(LiveCasinoProvider::Pragmatic) => Ok(Connector::Pragmatic),
            GameProvider::Slot(SlotProvider::RoyalSlotGaming) => Ok(Connector::RoyalSlotGaming),
            GameProvider::Slot(SlotProvider::Relax) => Ok(Connector::DotConnections),
            _ => Err(ArchiveError::InvalidProviderConfig { provider }),
        }
    }
}

impl ConfiguredConnectors {
    /// No connector has its settings yet.
    pub open spec fn unset() -> ConfiguredConnectors {
        ConfiguredConnectors {
            ae: false,
            ameba: false,
            arcadia: false,
            king_maker: false,
            pragmatic: false,
            royal_slot_gaming: false,
            dot_connections: false,
        }
    }

    /// No connector has its settings yet.
    pub fn none() -> (connectors: ConfiguredConnectors)
        ensures
            connectors == ConfiguredConnectors::unset(),
    {
        ConfiguredConnectors {
            ae: false,
            ameba: false,
            arcadia: false,
            king_maker: false,
            pragmatic: false,
            royal_slot_gaming: false,
            dot_connections: false,
        }
    }

    /// Whether `connector` has its settings.
    pub open spec fn has(self, connector: Connector) -> bool {
        match connector {
            Connector::Ae => self.ae,
            Connector::Ameba => self.ameba,
            Connector::Arcadia => self.arcadia,
            Connector::KingMaker => self.king_maker,
            Connector::Pragmatic => self.pragmatic,
            Connector::RoyalSlotGaming => self.royal_slot_gaming,
            Connector::DotConnections => self.dot_connections,
        }
    }

    /// `self` with the settings of `connector`.
    pub open spec fn with(self, connector: Connector) -> ConfiguredConnectors {
        match connector {
            Connector::Ae => ConfiguredConnectors { ae: true, ..self },
            Connector::Ameba => ConfiguredConnectors { ameba: true, ..self },
            Connector::Arcadia => ConfiguredConnectors { arcadia: true, ..self },
            Connector::KingMaker => ConfiguredConnectors { king_maker: true, ..self },
            Connector::Pragmatic => ConfiguredConnectors { pragmatic: true, ..self },
            Connector::RoyalSlotGaming => ConfiguredConnectors { royal_slot_gaming: true, ..self },
            Connector::DotConnections => ConfiguredConnectors { dot_connections: true, ..self },
        }
    }

    /// The first connector without settings, in the order in which the
    /// connectors are built.
    pub open spec fn first_missing(self) -> Option<Connector> {
        if !self.dot_connections {
            Some(Connector::DotConnections)
        } else if !self.ae {
            Some(Connector::Ae)
        } else if !self.ameba {
            Some(Connector::Ameba)
        } else if !self.arcadia {
            Some(Connector::Arcadia)
        } else if !self.king_maker {
            Some(Connector::KingMaker)
        } else if !self.pragmatic {
            Some(Connector::Pragmatic)
        } else if !self.royal_slot_gaming {
            Some(Connector::RoyalSlotGaming)
        } else {
            None
        }
    }

    /// Notes that `connector` has its settings.
    pub fn add(&mut self, connector: Connector)
        ensures
            *final(self) == old(self).with(connector),
    {
        match connector {
            Connector::Ae => {
                self.ae = true;
            },
            Connector::Ameba => {
                self.ameba = true;
            },
            Connector::Arcadia => {
                self.arcadia = true;
            },
            Connector::KingMaker => {
                self.king_maker = true;
            },
            Connector::Pragmatic => {
                self.pragmatic = true;
            },
            Connector::RoyalSlotGaming => {
                self.royal_slot_gaming = true;
            },
            Connector::DotConnections => {
                self.dot_connections = true;
            },
        }
    }

    /// Checks that every connector has its settings. The first one
    /// without is an error, which names it.
    pub fn require_all(&self) -> (result: Result<(), ArchiveError>)
        ensures
            match self.first_missing() {
                None => result is Ok,
                Some(missing) => result matches Err(ArchiveError::ConfigNotFound { connector })
                    && connector@ == missing.name(),
            },
    {
        let missing = if !self.dot_connections {
            Connector::DotConnections
        } else if !self.ae {
            Connector::Ae
        } else if !self.ameba {
            Connector::Ameba
        } else if !self.arcadia {
            Connector::Arcadia
        } else if !self.king_maker {
            Connector::KingMaker
        } else if !self.pragmatic {
            Connector::Pragmatic
        } else if !self.royal_slot_gaming {
            Connector::RoyalSlotGaming
        } else {
            return Ok(());
        };
        Err(ArchiveError::ConfigNotFound { connector: String::from_str(missing.as_ref()) })
    }
}

/// The connectors that `configs` hold settings for, on top of `start`;
/// or the first provider among them that has no connector.
pub open spec fn connectors_configured(start: ConfiguredConnectors, configs: Seq<ProviderConfig>) -> Result<
    ConfiguredConnectors,
    ArchiveError,
>
    decreases configs.len(),
{
    if configs.len() == 0 {
        Ok(start)
    } else {
        match connectors_configured(start, configs.drop_last()) {
            Err(failure) => Err(failure),
            Ok(before) => match Connector::configured_by(configs.last().game_provider) {
                Some(connector) => Ok(before.with(connector)),
                None => Err(
                    ArchiveError::InvalidProviderConfig {
                        provider: configs.last().game_provider,
                    },
                ),
            },
        }
    }
}

/// A failure among the first settings is the failure of all of them.
pub proof fn lemma_config_failure_stays(start: ConfiguredConnectors, configs: Seq<ProviderConfig>, part: int)
    requires
        0 <= part <= configs.len(),
    ensures
        connectors_configured(start, configs.take(part)) is Err ==> connectors_configured(
            start,
            configs,
        ) == connectors_configured(start, configs.take(part)),
    decreases configs.len() - part,
{
    if part < configs.len() {
        assert(configs.take(part + 1).drop_last() =~= configs.take(part));
        lemma_config_failure_stays(start, configs, part + 1);
    } else {
        assert(configs.take(part) =~= configs);
    }
}

/// Sorts the stored settings onto the connectors. Settings of a provider
/// without a connector are an error, and so is a connector that is left
/// without settings: the first of either kind is the failure. The answer
/// gives, for every stored setting in turn, the connector that it is for.
pub fn load_connectors(configs: &Vec<ProviderConfig>) -> (result: Result<
    Vec<Connector>,
    ArchiveError,
>)
    ensures
        match connectors_configured(ConfiguredConnectors::unset(), configs@) {
            Err(failure) => result matches Err(e) && e == failure,
            Ok(connectors) => match connectors.first_missing() {
                Some(missing) => result matches Err(ArchiveError::ConfigNotFound { connector })
                    && connector@ == missing.name(),
                None => result matches Ok(assigned) && assigned@.len() == configs@.len()
                    && forall|i: int|
                    0 <= i < configs@.len() ==> Connector::configured_by(
                        (#[trigger] configs@[i]).game_provider,
                    ) == Some(assigned@[i]),
            },
        },
{
    let mut connectors = ConfiguredConnectors::none();
    let mut assigned: Vec<Connector> = Vec::new();
    let mut i: usize = 0;
    proof {
        assert(configs@.take(0) =~= Seq::<ProviderConfig>::empty());
    }
    while i < configs.len()
        invariant
            i <= configs@.len(),
            connectors_configured(ConfiguredConnectors::unset(), configs@.take(i as int)) == Ok::<
                ConfiguredConnectors,
                ArchiveError,
            >(connectors),
            assigned@.len() == i,
            forall|j: int|
                0 <= j < i ==> Connector::configured_by((#[trigger] configs@[j]).game_provider)
                    == Some(assigned@[j]),
        decreases configs@.len() - i,
    {
        proof {
            assert(configs@.take(i + 1).drop_last() =~= configs@.take(i as int));
            assert(configs@.take(i + 1).last() == configs@[i as int]);
            lemma_config_failure_stays(ConfiguredConnectors::unset(), configs@, i + 1);
        }
        let connector = Connector::for_config(configs[i].game_provider)?;
        connectors.add(connector);
        assigned.push(connector);
        i += 1;
    }
    proof {
        assert(configs@.take(i as int) =~= configs@);
    }
    connectors.require_all()?;
    Ok(assigned)
}

/// The kind of game under which one slot provider files a round: 2 for a
/// fishing game, 1 for every other game and for a game without settings.
pub open spec fn round_game_type(game: Option<ProviderGameKind>) -> int {
    if game == Some(ProviderGameKind::Fishing) {
        2
    } else {
        1
    }
}

/// The kind of game under which one slot provider files a round.
pub fn get_round_game_type(game: Option<ProviderGameKind>) -> (game_type: u8)
    ensures
        game_type == round_game_type(game),
{
    match game {
        Some(ProviderGameKind::Fishing) => 2,
        _ => 1,
    }
}

} // verus!
