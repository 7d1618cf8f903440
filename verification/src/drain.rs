//! The drain loop: which table to fetch from next, and when to stop.
//!
//! The tables of live bets are drained one provider after the other. A
//! provider's table is fetched from, chunk by chunk, until a fetch comes
//! back empty; every chunk is settled and deleted within one transaction.

use crate::calendar::{get_hong_kong_11_hours_from_date, Date, Timestamp};
use crate::naming::{bet_table_name, get_bet_table_name};
use crate::provider::{drained_providers, get_drained_providers, GameProvider};
use crate::records::Bet;
use crate::settlement::id_numbers_of;
use vstd::prelude::*;

verus! {

/// What the drain loop does next.
#[derive(Debug)]
pub enum DrainAction {
    /// Fetch a chunk from the table of live bets of a provider.
    Fetch { provider: GameProvider, table: String },
    /// Every table is drained: copy the details back onto the archived
    /// bets and empty the staging table.
    Finish,
}

/// Where the drain loop stands: the providers in the order of draining,
/// and how many of them are drained.
pub struct DrainState {
    providers: Vec<GameProvider>,
    drained: usize,
}

impl DrainState {
    /// The providers, in the order of draining.
    pub closed spec fn providers(self) -> Seq<GameProvider> {
        self.providers@
    }

    /// How many providers are drained.
    pub closed spec fn drained(self) -> int {
        self.drained as int
    }

    /// Whether no more providers are counted as drained than there are.
    pub open spec fn is_valid(self) -> bool {
        0 <= self.drained() <= self.providers().len()
    }

    /// The provider whose table is being drained, if any is left.
    pub open spec fn current(self) -> Option<GameProvider> {
        if self.drained() < self.providers().len() {
            Some(self.providers()[self.drained()])
        } else {
            None
        }
    }

    /// The start of a run: every provider is still to be drained.
    pub fn new() -> (state: DrainState)
        ensures
            state.is_valid(),
            state.providers() == drained_providers(),
            state.drained() == 0,
    {
        DrainState { providers: get_drained_providers(), drained: 0 }
    }

    /// What to do next: fetch from the table of the current provider, or
    /// finish where every provider is drained.
    pub fn next_action(&self) -> (action: DrainAction)
        requires
            self.is_valid(),
        ensures
            match self.current() {
                Some(current) => action matches DrainAction::Fetch { provider, table }
                    && provider == current && table@ == bet_table_name(current),
                None => action is Finish,
            },
    {
        if self.drained < self.providers.len() {
            let provider = self.providers[self.drained];
            DrainAction::Fetch { provider, table: get_bet_table_name(provider) }
        } else {
            DrainAction::Finish
        }
    }

    /// Takes note of a fetched chunk of `fetched` bets. An empty chunk
    /// ends the draining of the current provider, and the next provider
    /// is up; any other chunk is to be settled, and the same table is
    /// fetched from again. The answer is whether the chunk is to be
    /// settled.
    pub fn chunk_fetched(&mut self, fetched: usize) -> (settle: bool)
        requires
            old(self).is_valid(),
            old(self).current() is Some,
        ensures
            final(self).is_valid(),
            final(self).providers() == old(self).providers(),
            settle == (fetched > 0),
            fetched == 0 ==> final(self).drained() == old(self).drained() + 1,
            fetched > 0 ==> final(self).drained() == old(self).drained(),
    {
        if fetched == 0 {
            let providers: usize = self.providers.len();
            if self.drained < providers {
                self.drained = self.drained + 1;
            }
            false
        } else {
            true
        }
    }
}

/// Whether a bet is up for draining: it is neither active nor pending,
/// its status last changed before `cutoff`, and, where `start` is given,
/// not before the beginning of that day.
pub open spec fn drainable(bet: Bet, cutoff: Timestamp, start: Option<Date>) -> bool {
    &&& !bet.status.is_open()
    &&& bet.last_status_change.before(cutoff)
    &&& start matches Some(day) ==> !bet.last_status_change.date().before(day)
}

/// Whether a bet is up for draining.
pub fn is_drainable(bet: &Bet, cutoff: Timestamp, start_date: Option<Date>) -> (up: bool)
    ensures
        up == drainable(*bet, cutoff, start_date),
{
    if bet.status.still_open() {
        return false;
    }
    if !bet.last_status_change.is_before(&cutoff) {
        return false;
    }
    match start_date {
        Some(day) => !bet.last_status_change.get_date().is_before(&day),
        None => true,
    }
}

/// The cutoff of a drain that runs on `today`: yesterday's cutoff. Only
/// bets whose status last changed before it are drained. `None` on the
/// first date there is, which has no yesterday.
pub fn drain_cutoff(today: Date) -> (cutoff: Option<Timestamp>)
    ensures
        cutoff is Some <==> today.has_previous(),
        cutoff matches Some(at) ==> at == Timestamp::cutoff_on(today.previous()),
{
    match today.previous_day() {
        Some(yesterday) => Some(get_hong_kong_11_hours_from_date(yesterday)),
        None => None,
    }
}

/// The identities of the bets that a table still holds once the bets
/// `deleted` are gone.
pub open spec fn table_without(table: Set<u128>, deleted: Seq<u128>) -> Set<u128> {
    table.difference(deleted.to_set())
}

/// Every drained bet is gone: once the bets that the plan of a chunk
/// names are deleted, the table holds none of the chunk's bets, and every
/// other bet that it held, it still holds.
pub proof fn lemma_drained_bets_are_gone(table: Set<u128>, bets: Seq<Bet>)
    ensures
        forall|i: int|
            0 <= i < bets.len() ==> !table_without(table, id_numbers_of(bets)).contains(
                (#[trigger] bets[i]).id.0,
            ),
        forall|id: u128|
            table.contains(id) && (forall|i: int|
                0 <= i < bets.len() ==> (#[trigger] bets[i]).id.0 != id) ==> table_without(
                table,
                id_numbers_of(bets),
            ).contains(id),
{
    let ids = id_numbers_of(bets);
    assert forall|i: int| 0 <= i < bets.len() implies !table_without(table, ids).contains(
        (#[trigger] bets[i]).id.0,
    ) by {
        assert(ids[i] == bets[i].id.0);
        assert(ids.contains(bets[i].id.0));
    }
    assert forall|id: u128|
        table.contains(id) && (forall|i: int| 0 <= i < bets.len() ==> (#[trigger] bets[i]).id.0
            != id) implies table_without(table, ids).contains(id) by {
        if ids.contains(id) {
            let k = choose|k: int| 0 <= k < ids.len() && ids[k] == id;
            assert(bets[k].id.0 == id);
        }
    }
}

/// Draining comes to an end: a chunk that is not empty, and was fetched
/// from the table, leaves the table with fewer bets than it had. After as
/// many chunks as the table has bets, at the latest, a fetch comes back
/// empty.
pub proof fn lemma_chunk_shrinks_table(table: Set<u128>, bets: Seq<Bet>)
    requires
        table.finite(),
        bets.len() > 0,
        forall|i: int| 0 <= i < bets.len() ==> table.contains((#[trigger] bets[i]).id.0),
    ensures
        table_without(table, id_numbers_of(bets)).finite(),
        table_without(table, id_numbers_of(bets)).len() < table.len(),
{
    let ids = id_numbers_of(bets);
    let rest = table_without(table, ids);
    let gone = bets[0].id.0;
    assert(ids[0] == gone);
    assert(ids.contains(gone));
    assert(rest.subset_of(table.remove(gone))) by {
        assert forall|id: u128| rest.contains(id) implies table.remove(gone).contains(id) by {}
    }
    vstd::set_lib::lemma_len_subset(rest, table.remove(gone));
}

} // verus!
