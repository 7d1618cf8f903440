//! What can end a run.

use crate::provider::GameProvider;
use crate::types::UserID;
use vstd::prelude::*;
use vstd::string::*;

verus! {

/// The failures that abort a run. None is retried: a later run starts over
/// from what the last one committed.
#[derive(Debug)]
pub enum ArchiveError {
    /// No partition back to the floor year holds a ledger row.
    NoOpeningBalance,
    /// The owner of a bet has no upline in the run's cache.
    UplineNotFound { user_id: UserID },
    /// A user who is owed a debt row was never seen with a name.
    UsernameNotFound { user_id: UserID },
    /// A running total left the range of a 64-bit amount.
    AmountOverflow,
    /// A settlement day would lie after the last date there is.
    DateOutOfRange,
    /// A stored name belongs to no provider.
    UnexpectedProviderName { name: String },
    /// A stored status is none of the six.
    InvalidStatus { status: String },
    /// Settings were loaded for a provider that has no connector.
    InvalidProviderConfig { provider: GameProvider },
    /// A connector has no settings.
    ConfigNotFound { connector: String },
    /// A chunk holds more bets than a chunk may.
    ChunkTooLarge,
}

impl ArchiveError {
    /// What the failure is, in words.
    pub open spec fn message_text(self) -> Seq<char> {
        match self {
            ArchiveError::NoOpeningBalance => "We don't have opening balance records prior this date"@,
            ArchiveError::UplineNotFound { .. } => "Not found upline for user"@,
            ArchiveError::UsernameNotFound { .. } => "username was not found for user_id"@,
            ArchiveError::AmountOverflow => "amount out of range"@,
            ArchiveError::DateOutOfRange => "date out of range"@,
            ArchiveError::UnexpectedProviderName { name } => "Unexpected provider name: '"@
                + name@ + "'"@,
            ArchiveError::InvalidStatus { .. } => "Invalid status from DB"@,
            ArchiveError::InvalidProviderConfig { provider } => "Loaded invalid provider config: '"@
                + provider.name() + "'"@,
            ArchiveError::ConfigNotFound { connector } => connector@ + " config not found"@,
            ArchiveError::ChunkTooLarge => "chunk too large"@,
        }
    }

    /// What the failure is, in words.
    pub fn message(&self) -> (text: String)
        ensures
            text@ == self.message_text(),
    {
        match self {
            ArchiveError::NoOpeningBalance => String::from_str(
                "We don't have opening balance records prior this date",
            ),
            ArchiveError::UplineNotFound { .. } => String::from_str("Not found upline for user"),
            ArchiveError::UsernameNotFound { .. } => String::from_str(
                "username was not found for user_id",
            ),
            ArchiveError::AmountOverflow => String::from_str("amount out of range"),
            ArchiveError::DateOutOfRange => String::from_str("date out of range"),
            ArchiveError::UnexpectedProviderName { name } => {
                let mut text = String::from_str("Unexpected provider name: '");
                text.append(name.as_str());
                text.append("'");
                text
            },
            ArchiveError::InvalidStatus { .. } => String::from_str("Invalid status from DB"),
            ArchiveError::InvalidProviderConfig { provider } => {
                let mut text = String::from_str("Loaded invalid provider config: '");
                text.append(provider.as_ref());
                text.append("'");
                text
            },
            ArchiveError::ConfigNotFound { connector } => {
                let mut text = String::from_str(connector.as_str());
                text.append(" config not found");
                text
            },
            ArchiveError::ChunkTooLarge => String::from_str("chunk too large"),
        }
    }
}

} // verus!
