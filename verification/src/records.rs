//! The rows that the archive reads and writes.

use crate::calendar::{Date, Timestamp};
use crate::enums::{BetStatus, PositionEnum};
use crate::error::ArchiveError;
use crate::types::{
    AmountByPosition, BetID, Currency, ProviderBetID, ProviderGameVendorID,
    ProviderGameVendorLabel, Url, UserID, Username,
};
use vstd::prelude::*;

verus! {

/// A wager, as the platform recorded it. A bet is read once, when it is
/// drained, and never changed.
#[derive(Debug)]
pub struct Bet {
    pub id: BetID,
    pub creation_date: Timestamp,
    pub last_status_change: Timestamp,
    pub stake: i64,
    pub valid_amount: Option<i64>,
    pub wl: Option<i64>,
    pub user_id: UserID,
    pub username: Username,
    pub ip: String,
    pub status: BetStatus,
    pub currency: Currency,
    pub pt_by_position: AmountByPosition,
    pub commission_percent: AmountByPosition,
    pub commission_amount: AmountByPosition,
    pub funds_delta: AmountByPosition,
    pub details: Option<String>,
    pub replay: String,
    pub transaction_ids: Vec<String>,
    pub transactions: Vec<String>,
    pub provider_bet_id: ProviderBetID,
    pub provider_game_vendor_id: ProviderGameVendorID,
    pub provider_game_vendor_label: ProviderGameVendorLabel,
}

/// A wager as its table holds it: the status is still a text.
#[derive(Debug)]
pub struct RawBet {
    pub id: BetID,
    pub creation_date: Timestamp,
    pub last_status_change: Timestamp,
    pub stake: i64,
    pub valid_amount: Option<i64>,
    pub wl: Option<i64>,
    pub user_id: UserID,
    pub username: Username,
    pub ip: String,
    pub status: String,
    pub currency: Currency,
    pub pt_by_position: AmountByPosition,
    pub commission_percent: AmountByPosition,
    pub commission_amount: AmountByPosition,
    pub funds_delta: AmountByPosition,
    pub details: Option<String>,
    pub replay: String,
    pub transaction_ids: Vec<String>,
    pub transactions: Vec<String>,
    pub provider_bet_id: ProviderBetID,
    pub provider_game_vendor_id: ProviderGameVendorID,
    pub provider_game_vendor_label: ProviderGameVendorLabel,
}

impl Bet {
    /// What the bet won or lost; nothing where the platform recorded
    /// neither.
    pub open spec fn win_loss(self) -> int {
        match self.wl {
            Some(amount) => amount as int,
            None => 0,
        }
    }

    /// What rank `rank` (0 to 6) is owed for this bet: its commission
    /// and its change of funds, added up.
    pub open spec fn contribution(self, rank: int) -> int {
        self.commission_amount@[rank] + self.funds_delta@[rank]
    }
}

impl RawBet {
    /// The bet with every field but the status carried over.
    pub open spec fn with_status(self, status: BetStatus) -> Bet {
        Bet {
            status,
            id: self.id,
            creation_date: self.creation_date,
            last_status_change: self.last_status_change,
            stake: self.stake,
            valid_amount: self.valid_amount,
            wl: self.wl,
            user_id: self.user_id,
            username: self.username,
            ip: self.ip,
            currency: self.currency,
            pt_by_position: self.pt_by_position,
            commission_percent: self.commission_percent,
            commission_amount: self.commission_amount,
            funds_delta: self.funds_delta,
            details: self.details,
            replay: self.replay,
            transaction_ids: self.transaction_ids,
            transactions: self.transactions,
            provider_bet_id: self.provider_bet_id,
            provider_game_vendor_id: self.provider_game_vendor_id,
            provider_game_vendor_label: self.provider_game_vendor_label,
        }
    }

    /// Reads the status. A row whose status is none of the six is an
    /// error; any other row becomes a bet with all its fields unchanged.
    pub fn try_into_bet(self) -> (result: Result<Bet, ArchiveError>)
        ensures
            match BetStatus::named(self.status@) {
                Some(status) => result == Ok::<Bet, ArchiveError>(self.with_status(status)),
                None => result matches Err(ArchiveError::InvalidStatus { status })
                    && status@ == self.status@,
            },
    {
        let status = BetStatus::from_str(self.status.as_str())?;
        Ok(
            Bet {
                status,
                id: self.id,
                creation_date: self.creation_date,
                last_status_change: self.last_status_change,
                stake: self.stake,
                valid_amount: self.valid_amount,
                wl: self.wl,
                user_id: self.user_id,
                username: self.username,
                ip: self.ip,
                currency: self.currency,
                pt_by_position: self.pt_by_position,
                commission_percent: self.commission_percent,
                commission_amount: self.commission_amount,
                funds_delta: self.funds_delta,
                details: self.details,
                replay: self.replay,
                transaction_ids: self.transaction_ids,
                transactions: self.transactions,
                provider_bet_id: self.provider_bet_id,
                provider_game_vendor_id: self.provider_game_vendor_id,
                provider_game_vendor_label: self.provider_game_vendor_label,
            },
        )
    }
}

/// Replay or detail data that a provider gave for a bet.
#[derive(Debug)]
pub struct BetDetails {
    pub id: BetID,
    pub details: Option<String>,
    pub replay: Option<Url>,
}

/// One member of an upline: an account and its rank.
#[derive(Debug)]
pub struct User {
    pub id: UserID,
    pub username: Username,
    pub position: PositionEnum,
}

impl Clone for User {
    fn clone(&self) -> (copy: Self)
        ensures
            copy == *self,
    {
        User { id: self.id, username: self.username.clone(), position: self.position }
    }
}

/// A row of the debt ledger: what one user is owed, or owes, for one
/// settlement day.
#[derive(Debug)]
pub struct CreditDebt {
    pub id: u128,
    pub user_id: UserID,
    pub currency: Currency,
    pub date: Timestamp,
    pub username: Username,
    pub debt_amount: i64,
}

/// A row of the balance ledger: the running balance of one user as of one
/// checkpoint day.
#[derive(Debug, Clone, Copy)]
pub struct OpeningBalance {
    pub id: u128,
    pub amount: i64,
    pub creation_date: Timestamp,
    pub user_id: UserID,
}

/// A player, as the roll-forward pages through them.
#[derive(Debug, Clone, Copy)]
pub struct UserInfo {
    pub user_id: UserID,
    pub is_credit: bool,
}

/// An amount in a currency.
#[derive(Debug)]
pub struct CurrencyAmount {
    pub currency: Currency,
    pub amount: i64,
}

/// The day of a checkpoint: rows of the two ledgers carry their day as
/// that day's cutoff.
pub open spec fn checkpoint_of(day: Date) -> Timestamp {
    Timestamp::cutoff_on(day)
}

} // verus!
