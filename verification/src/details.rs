//! Replay and detail data of drained bets.
//!
//! For the bets of some providers a connector can be asked for a link to
//! the round's history. Asking is best effort: a bet without an answer is
//! archived without details.

use crate::connectors::Connector;
use crate::provider::{GameProvider, LiveCasinoProvider, OnlineCasinoProvider, SlotProvider};
use crate::records::{Bet, BetDetails};
use crate::types::Url;
use vstd::prelude::*;
use vstd::string::*;

verus! {

/// A text as a JSON string: between quotes, with what JSON asks to be
/// escaped, escaped.
pub uninterp spec fn json_string_of(text: Seq<char>) -> Seq<char>;

/// Writes a text as a JSON string through `serde_json::to_string`, which
/// does not fail on a text. The outcome is a function of the text alone.
#[verifier::external_body]
fn json_string(text: &str) -> (json: String)
    ensures
        json@ == json_string_of(text@),
{
    match serde_json::to_string(text) {
        Ok(json) => json,
        Err(_) => String::new(),
    }
}

/// What a connector answered.
#[derive(Debug)]
pub enum DetailReply {
    /// A link.
    Url(Url),
    /// The links of a round, which only one connector gives.
    Urls(Vec<Url>),
}

/// The connector to ask about a bet of `provider`, if there is one. One
/// provider's bets are only asked about while they hold no details yet.
pub open spec fn detail_connector_of(bet: Bet, provider: GameProvider) -> Option<Connector> {
    match provider {
        GameProvider::LiveCasino(LiveCasinoProvider::Sexy) => Some(Connector::Ae),
        GameProvider::LiveCasino(LiveCasinoProvider::Pragmatic) | GameProvider::Slot(
            SlotProvider::Pragmatic,
        ) => if bet.details is None {
            Some(Connector::Pragmatic)
        } else {
            None
        },
        GameProvider::Slot(SlotProvider::RoyalSlotGaming) => Some(Connector::RoyalSlotGaming),
        GameProvider::Slot(SlotProvider::Ameba) => Some(Connector::Ameba),
        GameProvider::OnlineCasino(OnlineCasinoProvider::Arcadia) => Some(Connector::Arcadia),
        GameProvider::OnlineCasino(OnlineCasinoProvider::Kingmaker) => Some(Connector::KingMaker),
        GameProvider::Slot(SlotProvider::Relax) | GameProvider::Slot(SlotProvider::YGG)
        | GameProvider::Slot(SlotProvider::Hacksaw) => Some(Connector::DotConnections),
        _ => None,
    }
}

/// The connector to ask about a bet of `provider`, if there is one.
pub fn detail_connector(bet: &Bet, provider: GameProvider) -> (connector: Option<Connector>)
    ensures
        connector == detail_connector_of(*bet, provider),
{
    match provider {
        GameProvider::LiveCasino(LiveCasinoProvider::Sexy) => Some(Connector::Ae),
        GameProvider::LiveCasino(LiveCasinoProvider::Pragmatic) | GameProvider::Slot(
            SlotProvider::Pragmatic,
        ) => {
            if bet.details.is_none() {
                Some(Connector::Pragmatic)
            } else {
                None
            }
        },
        GameProvider::Slot(SlotProvider::RoyalSlotGaming) => Some(Connector::RoyalSlotGaming),
        GameProvider::Slot(SlotProvider::Ameba) => Some(Connector::Ameba),
        GameProvider::OnlineCasino(OnlineCasinoProvider::Arcadia) => Some(Connector::Arcadia),
        GameProvider::OnlineCasino(OnlineCasinoProvider::Kingmaker) => Some(Connector::KingMaker),
        GameProvider::Slot(SlotProvider::Relax) | GameProvider::Slot(SlotProvider::YGG)
        | GameProvider::Slot(SlotProvider::Hacksaw) => Some(Connector::DotConnections),
        _ => None,
    }
}

/// The links of a round as the members of a JSON array: every link as a
/// JSON string, with commas between them.
pub open spec fn json_members(urls: Seq<Url>) -> Seq<char>
    decreases urls.len(),
{
    if urls.len() == 0 {
        Seq::empty()
    } else if urls.len() == 1 {
        json_string_of(urls[0]@)
    } else {
        json_members(urls.drop_last()) + seq![','] + json_string_of(urls.last()@)
    }
}

/// The details text of an answer: a JSON object with the answer under
/// `result`. A link stands there as a string, the links of a round as an
/// object with the links under `urls`.
pub open spec fn details_json(reply: DetailReply) -> Seq<char> {
    match reply {
        DetailReply::Url(url) => "{\"result\":"@ + json_string_of(url@) + "}"@,
        DetailReply::Urls(urls) => "{\"result\":{\"urls\":["@ + json_members(urls@) + "]}}"@,
    }
}

/// The details text of an answer.
pub fn render_details(reply: &DetailReply) -> (text: String)
    ensures
        text@ == details_json(*reply),
{
    match reply {
        DetailReply::Url(url) => {
            let mut text = String::from_str("{\"result\":");
            let link = json_string(url.0.as_str());
            text.append(link.as_str());
            text.append("}");
            text
        },
        DetailReply::Urls(urls) => {
            let mut text = String::from_str("{\"result\":{\"urls\":[");
            let ghost head = text@;
            let mut i: usize = 0;
            proof {
                reveal_strlit(",");
                assert(urls@.take(0) =~= Seq::<Url>::empty());
                assert(text@ =~= head + json_members(urls@.take(0)));
            }
            while i < urls.len()
                invariant
                    i <= urls@.len(),
                    ","@ == seq![','],
                    text@ == head + json_members(urls@.take(i as int)),
                decreases urls@.len() - i,
            {
                proof {
                    assert(urls@.take(i + 1).drop_last() =~= urls@.take(i as int));
                    assert(urls@.take(i + 1).last() == urls@[i as int]);
                    assert(urls@.take(i + 1)[0] == urls@[0]);
                }
                if i > 0 {
                    text.append(",");
                }
                let link = json_string(urls[i].0.as_str());
                text.append(link.as_str());
                i += 1;
                proof {
                    assert(text@ =~= head + json_members(urls@.take(i as int)));
                }
            }
            proof {
                assert(urls@.take(i as int) =~= urls@);
            }
            text.append("]}}");
            text
        },
    }
}

/// What is filed for a bet of `provider` once its connector has
/// answered, or has failed to: nothing for a bet that no connector is
/// asked about, nothing for a bet without an answer, and for any other the
/// replay link or the details text.
pub fn extend_bet_with_details(
    bet: &Bet,
    provider: GameProvider,
    reply: Option<DetailReply>,
) -> (filed: Option<BetDetails>)
    ensures
        filed is Some <==> detail_connector_of(*bet, provider) is Some && reply is Some,
        filed matches Some(details) ==> details.id == bet.id && (match (
            detail_connector_of(*bet, provider),
            reply,
        ) {
            (Some(Connector::Ae), Some(DetailReply::Url(url))) => details.details is None
                && details.replay == Some(url),
            (_, Some(answer)) => details.replay is None && (details.details matches Some(text)
                && text@ == details_json(answer)),
            _ => false,
        }),
{
    let connector = match detail_connector(bet, provider) {
        Some(connector) => connector,
        None => {
            return None;
        },
    };
    let answer = match reply {
        Some(answer) => answer,
        None => {
            return None;
        },
    };
    match (connector, answer) {
        (Connector::Ae, DetailReply::Url(url)) => Some(
            BetDetails { id: bet.id, details: None, replay: Some(url) },
        ),
        (_, answer) => Some(
            BetDetails { id: bet.id, details: Some(render_details(&answer)), replay: None },
        ),
    }
}

} // verus!
