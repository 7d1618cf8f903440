//! Settlement and archiving of wager records.
//!
//! One settlement pass has two parts. First the balance ledger, which
//! holds a running balance per player and checkpoint day, is rolled
//! forward to tomorrow ([`opening_balance`], and [`rollforward`] for a
//! ledger held in memory). Then the tables of live bets
//! are drained, provider by provider and chunk by chunk ([`drain`]); every
//! chunk is settled in memory ([`settlement`], [`debts`]) into a plan of
//! what to write: the commission debts of the uplines of credit players,
//! the wins and losses to carry into the balance ledger, and the bets to
//! delete.
//!
//! Both ledgers are cut into one schema per year and one table per month
//! ([`naming`]), and both take rows by adding them to what they hold
//! ([`ledger`]). Days follow the platform's cutoff, not midnight
//! ([`calendar`]).
//!
//! The library decides and computes; it neither talks to a store nor to a
//! provider. Whoever runs a pass fetches what the library asks for and
//! writes what it plans.

pub mod calendar;
pub mod chunk;
pub mod configuration;
pub mod connectors;
pub mod crypto;
pub mod debts;
pub mod decimal;
pub mod details;
pub mod drain;
pub mod enums;
pub mod error;
pub mod ident;
pub mod idmap;
pub mod keyed;
pub mod ledger;
pub mod naming;
pub mod opening_balance;
pub mod provider;
pub mod records;
pub mod rollforward;
pub mod settlement;
pub mod state;
pub mod text;
pub mod types;
