//! Settlement of a chunk of drained bets.
//!
//! A chunk is settled in memory: every bet is booked onto its settlement
//! day, its win or loss onto the owner's running total, and, where the
//! owner plays on credit, its commissions onto the totals of the owner's
//! upline. What comes out is a plan of everything that has to be written
//! within the chunk's transaction.

use crate::calendar::{
    checked_figures_date, figures_date, get_hong_kong_11_hours_from_date, has_figures_date,
    months_from_through, months_through, Date, Timestamp,
};
use crate::chunk::{chunk_ids, new_chunk_ids, push_chunk_id, CHUNK_SIZE};
use crate::debts::{
    amount_of, are_debt_models, calculate_debt_by_bet, create_credit_debt_models,
    distinct_members, fits_i64, lemma_commission_distribution, lemma_upline_settled, names_with,
    unnamed_in_days, upline_settled, DebtsByDate,
};
use crate::error::ArchiveError;
use crate::keyed::{
    all_valid, distinct_keys, has_key, lemma_nested, lemma_nested_replaced,
    lemma_place_holds_key, lemma_put, lemma_put_twice, nested, place_of, put, value_or,
    KeyedList,
};
use crate::naming::{
    bet_table_name, get_bet_table_name, Partition, OPENING_BALANCE_TABLE_NAME,
};
use crate::provider::GameProvider;
use crate::records::{Bet, CreditDebt, CurrencyAmount, User};
use crate::state::State;
use crate::types::{UserID, Username};
use arrayvec::ArrayVec;
use vstd::prelude::*;

verus! {

/// The wins and losses of a chunk, by settlement day and user.
pub type WlByDateByUser = KeyedList<Date, KeyedList<u128, i64>>;

/// What settling a chunk asks to be written, all within one transaction.
pub struct ChunkPlan {
    /// The table of live bets from which the chunk was drained.
    pub bet_table: String,
    /// The drained bets, which are to be deleted from their table.
    pub bet_ids: ArrayVec<u128, CHUNK_SIZE>,
    /// The rows to merge into the debt ledger, by settlement day.
    pub debts: Vec<(Date, Vec<CreditDebt>)>,
    /// The wins and losses to add to the balance ledger.
    pub wl_by_date_by_user: WlByDateByUser,
}

/// The running totals of a chunk while it is settled.
pub struct ChunkTotals {
    /// What uplines are owed, by settlement day and user.
    pub debts: Seq<(Date, Seq<(u128, CurrencyAmount)>)>,
    /// What owners won or lost, by settlement day and user.
    pub wl: Seq<(Date, Seq<(u128, i64)>)>,
    /// The names of the users seen.
    pub names: Map<u128, Username>,
}

/// The win or loss that `user` has on `day`; nothing where there is none.
pub open spec fn wl_total(days: Seq<(Date, Seq<(u128, i64)>)>, day: Date, user: u128) -> int {
    value_or(value_or(days, day, Seq::<(u128, i64)>::empty()), user, 0i64) as int
}

/// `days` with `amount` added to what `user` won or lost on `day`.
pub open spec fn tallied(
    days: Seq<(Date, Seq<(u128, i64)>)>,
    day: Date,
    user: u128,
    amount: int,
) -> Seq<(Date, Seq<(u128, i64)>)> {
    let totals = value_or(days, day, Seq::<(u128, i64)>::empty());
    put(days, day, put(totals, user, (value_or(totals, user, 0i64) + amount) as i64))
}

/// `days` after the upline was credited, on `day`, with what it is owed
/// for the bet; `None` where an amount leaves its range on the way.
pub open spec fn day_settled(
    days: Seq<(Date, Seq<(u128, CurrencyAmount)>)>,
    day: Date,
    upline: Seq<User>,
    bet: Bet,
) -> Option<Seq<(Date, Seq<(u128, CurrencyAmount)>)>> {
    match upline_settled(value_or(days, day, Seq::<(u128, CurrencyAmount)>::empty()), upline, bet) {
        Some(totals) => Some(put(days, day, totals)),
        None => None,
    }
}

/// `names` with the name of the owner of a bet, unless one was known.
pub open spec fn owner_named(names: Map<u128, Username>, bet: Bet) -> Map<u128, Username> {
    if names.contains_key(bet.user_id.0) {
        names
    } else {
        names.insert(bet.user_id.0, bet.username)
    }
}

/// The totals after one more bet was settled, or the failure that ends
/// the chunk.
///
/// The owner's name is remembered. The bet's settlement day follows from
/// its last change of status. Its win or loss goes onto the owner's total
/// of that day. Where the owner plays on credit, the owner's upline is
/// credited with what it is owed, on that day, and its members' names are
/// remembered; the bet of any other owner leaves the debts alone.
pub open spec fn bet_settled(
    totals: ChunkTotals,
    bet: Bet,
    credit_players: Map<u128, bool>,
    uplines: Map<u128, Vec<User>>,
) -> Result<ChunkTotals, ArchiveError> {
    let names = owner_named(totals.names, bet);
    let owner = bet.user_id.0;
    if !has_figures_date(bet.last_status_change) {
        Err(ArchiveError::DateOutOfRange)
    } else {
        let day = figures_date(bet.last_status_change);
        if !fits_i64(wl_total(totals.wl, day, owner) + bet.win_loss()) {
            Err(ArchiveError::AmountOverflow)
        } else {
            let wl = tallied(totals.wl, day, owner, bet.win_loss());
            if credit_players.contains_key(owner) && credit_players[owner] {
                if !uplines.contains_key(owner) {
                    Err(ArchiveError::UplineNotFound { user_id: bet.user_id })
                } else {
                    match day_settled(totals.debts, day, uplines[owner]@, bet) {
                        None => Err(ArchiveError::AmountOverflow),
                        Some(debts) => Ok(
                            ChunkTotals { debts, wl, names: names_with(names, uplines[owner]@) },
                        ),
                    }
                }
            } else {
                Ok(ChunkTotals { debts: totals.debts, wl, names })
            }
        }
    }
}

/// The totals after every bet of a chunk was settled, in turn, or the
/// failure of the first bet that could not be.
pub open spec fn chunk_settled(
    bets: Seq<Bet>,
    start: ChunkTotals,
    credit_players: Map<u128, bool>,
    uplines: Map<u128, Vec<User>>,
) -> Result<ChunkTotals, ArchiveError>
    decreases bets.len(),
{
    if bets.len() == 0 {
        Ok(start)
    } else {
        match chunk_settled(bets.drop_last(), start, credit_players, uplines) {
            Err(failure) => Err(failure),
            Ok(totals) => bet_settled(totals, bets.last(), credit_players, uplines),
        }
    }
}

/// The totals with which a chunk starts: no debts, no wins or losses, and
/// the names that the run knows.
pub open spec fn fresh_totals(names: Map<u128, Username>) -> ChunkTotals {
    ChunkTotals {
        debts: Seq::<(Date, Seq<(u128, CurrencyAmount)>)>::empty(),
        wl: Seq::<(Date, Seq<(u128, i64)>)>::empty(),
        names,
    }
}

/// The identities of the bets of a chunk, as numbers, in the chunk's
/// order.
pub open spec fn id_numbers_of(bets: Seq<Bet>) -> Seq<u128> {
    Seq::new(bets.len(), |i: int| bets[i].id.0)
}

/// The failure of a part of a chunk is the failure of the chunk.
pub proof fn lemma_failure_stays(
    bets: Seq<Bet>,
    start: ChunkTotals,
    credit_players: Map<u128, bool>,
    uplines: Map<u128, Vec<User>>,
    part: int,
)
    requires
        0 <= part <= bets.len(),
    ensures
        chunk_settled(bets.take(part), start, credit_players, uplines) is Err ==> chunk_settled(
            bets,
            start,
            credit_players,
            uplines,
        ) == chunk_settled(bets.take(part), start, credit_players, uplines),
    decreases bets.len() - part,
{
    if part < bets.len() {
        assert(bets.take(part + 1).drop_last() =~= bets.take(part));
        lemma_failure_stays(bets, start, credit_players, uplines, part + 1);
    } else {
        assert(bets.take(part) =~= bets);
    }
}

/// Adds `amount` to what `user_id` won or lost on `day`. A total that
/// leaves the range of a 64-bit amount is an error.
pub fn tally_win_loss(wl: &mut WlByDateByUser, day: Date, user_id: UserID, amount: i64) -> (result:
    Result<(), ArchiveError>)
    requires
        all_valid(*old(wl)),
    ensures
        all_valid(*final(wl)),
        fits_i64(wl_total(nested(*old(wl)), day, user_id.0) + amount) ==> {
            &&& result is Ok
            &&& nested(*final(wl)) == tallied(nested(*old(wl)), day, user_id.0, amount as int)
        },
        !fits_i64(wl_total(nested(*old(wl)), day, user_id.0) + amount) ==> result == Err::<
            (),
            ArchiveError,
        >(ArchiveError::AmountOverflow),
{
    let place = wl.place_for(day);
    let ghost begun = *wl;
    let ghost held = value_or(nested(*old(wl)), day, Seq::<(u128, i64)>::empty());
    proof {
        lemma_nested(*old(wl));
        lemma_nested(begun);
        assert(begun.entries()[place as int].1.entries() == held);
    }
    let totals = wl.value_at_mut(place);
    match totals.find(&user_id.0) {
        Some(at) => {
            let before: i64 = *totals.value_at(at);
            match before.checked_add(amount) {
                Some(sum) => {
                    totals.set_value(at, sum);
                },
                None => {
                    return Err(ArchiveError::AmountOverflow);
                },
            }
        },
        None => {
            totals.push(user_id.0, amount);
        },
    }
    proof {
        lemma_nested_replaced(begun, *wl, place as int);
        lemma_put_twice(
            nested(*old(wl)),
            day,
            held,
            put(held, user_id.0, (value_or(held, user_id.0, 0i64) + amount) as i64),
        );
    }
    Ok(())
}

/// Credits the upline of the owner of `bet`, who plays on credit, on
/// `day`, with what it is owed for the bet.
fn settle_day(bet: &Bet, debts: &mut DebtsByDate, day: Date, state: &mut State) -> (result: Result<
    (),
    ArchiveError,
>)
    requires
        all_valid(*old(debts)),
        old(state).credit_player(bet.user_id),
    ensures
        all_valid(*final(debts)),
        final(state).credit_players == old(state).credit_players,
        final(state).upline == old(state).upline,
        !old(state).knows_upline(bet.user_id) ==> result == Err::<(), ArchiveError>(
            ArchiveError::UplineNotFound { user_id: bet.user_id },
        ),
        old(state).knows_upline(bet.user_id) ==> match day_settled(
            nested(*old(debts)),
            day,
            old(state).upline_of(bet.user_id),
            *bet,
        ) {
            Some(after) => {
                &&& result is Ok
                &&& nested(*final(debts)) == after
                &&& final(state).username_by_user_id@ == names_with(
                    old(state).username_by_user_id@,
                    old(state).upline_of(bet.user_id),
                )
            },
            None => result == Err::<(), ArchiveError>(ArchiveError::AmountOverflow),
        },
{
    let place = debts.place_for(day);
    let ghost begun = *debts;
    let ghost held = value_or(nested(*old(debts)), day, Seq::<(u128, CurrencyAmount)>::empty());
    proof {
        lemma_nested(*old(debts));
        lemma_nested(begun);
        assert(begun.entries()[place as int].1.entries() == held);
    }
    let existing_debts = debts.value_at_mut(place);
    calculate_debt_by_bet(bet, existing_debts, state)?;
    proof {
        lemma_nested_replaced(begun, *debts, place as int);
        lemma_put_twice(
            nested(*old(debts)),
            day,
            held,
            upline_settled(held, old(state).upline_of(bet.user_id), *bet)->0,
        );
    }
    Ok(())
}

/// Settles a chunk of drained bets of one provider.
///
/// Every bet is taken in turn: its identity is noted for deletion, its
/// owner's name remembered, its win or loss booked onto its settlement
/// day, and, where the owner is a credit player, the owner's upline
/// credited. A bet of any other owner books no debt. At the end the
/// running debts become rows of the debt ledger.
///
/// The upline of every credit player among the owners has to be in the
/// run's cache: [`uplines_to_fetch`] tells which are missing. A chunk of
/// more than [`CHUNK_SIZE`] bets is an error. The first failure ends the
/// chunk, and nothing of it is to be written.
pub fn handle_bet_chunk(provider: GameProvider, bets: Vec<Bet>, state: &mut State) -> (result:
    Result<ChunkPlan, ArchiveError>)
    ensures
        final(state).credit_players == old(state).credit_players,
        final(state).upline == old(state).upline,
        bets@.len() > CHUNK_SIZE ==> (result matches Err(e) && e == ArchiveError::ChunkTooLarge),
        bets@.len() <= CHUNK_SIZE ==> match chunk_settled(
            bets@,
            fresh_totals(old(state).username_by_user_id@),
            old(state).credit_players@,
            old(state).upline@,
        ) {
            Err(failure) => result matches Err(e) && e == failure,
            Ok(totals) => match unnamed_in_days(totals.debts, totals.names) {
                Some(user) => result matches Err(e) && e == (ArchiveError::UsernameNotFound {
                    user_id: UserID(user),
                }),
                None => result matches Ok(plan) && plan.bet_table@ == bet_table_name(provider)
                    && chunk_ids(plan.bet_ids) == id_numbers_of(bets@) && are_debt_models(
                    plan.debts@,
                    totals.debts,
                    totals.names,
                ) && nested(plan.wl_by_date_by_user) == totals.wl && all_valid(
                    plan.wl_by_date_by_user,
                ) && final(state).username_by_user_id@ == totals.names,
            },
        },
{
    if bets.len() > CHUNK_SIZE {
        return Err(ArchiveError::ChunkTooLarge);
    }
    let mut bet_ids = new_chunk_ids();
    let mut debts: DebtsByDate = KeyedList::new();
    let mut wl_by_date_by_user: WlByDateByUser = KeyedList::new();
    let ghost start = fresh_totals(old(state).username_by_user_id@);
    let ghost credit_players = old(state).credit_players@;
    let ghost uplines = old(state).upline@;
    proof {
        assert(bets@.take(0) =~= Seq::<Bet>::empty());
        assert(chunk_ids(bet_ids) =~= id_numbers_of(bets@.take(0)));
        assert(nested(debts) =~= start.debts);
        assert(nested(wl_by_date_by_user) =~= start.wl);
    }
    let mut i: usize = 0;
    while i < bets.len()
        invariant
            i <= bets@.len(),
            bets@.len() <= CHUNK_SIZE,
            start == fresh_totals(old(state).username_by_user_id@),
            credit_players == old(state).credit_players@,
            uplines == old(state).upline@,
            state.credit_players == old(state).credit_players,
            state.upline == old(state).upline,
            all_valid(debts),
            all_valid(wl_by_date_by_user),
            chunk_ids(bet_ids) == id_numbers_of(bets@.take(i as int)),
            chunk_settled(bets@.take(i as int), start, credit_players, uplines) == Ok::<
                ChunkTotals,
                ArchiveError,
            >(
                ChunkTotals {
                    debts: nested(debts),
                    wl: nested(wl_by_date_by_user),
                    names: state.username_by_user_id@,
                },
            ),
        decreases bets@.len() - i,
    {
        let bet = &bets[i];
        let ghost totals = ChunkTotals {
            debts: nested(debts),
            wl: nested(wl_by_date_by_user),
            names: state.username_by_user_id@,
        };
        proof {
            assert(bets@.take(i + 1).drop_last() =~= bets@.take(i as int));
            assert(bets@.take(i + 1).last() == bets@[i as int]);
            lemma_failure_stays(bets@, start, credit_players, uplines, i + 1);
            assert(chunk_settled(bets@.take(i + 1), start, credit_players, uplines)
                == bet_settled(totals, *bet, credit_players, uplines));
        }
        push_chunk_id(&mut bet_ids, bet.id.0);
        proof {
            assert(chunk_ids(bet_ids) =~= id_numbers_of(bets@.take(i + 1)));
        }
        state.remember_username(bet.user_id, &bet.username);
        let figures_date = match checked_figures_date(bet.last_status_change) {
            Some(day) => day,
            None => {
                return Err(ArchiveError::DateOutOfRange);
            },
        };
        let amount: i64 = match bet.wl {
            Some(amount) => amount,
            None => 0,
        };
        tally_win_loss(&mut wl_by_date_by_user, figures_date, bet.user_id, amount)?;
        if state.is_credit_player(bet.user_id) {
            settle_day(bet, &mut debts, figures_date, state)?;
        }
        i += 1;
    }
    proof {
        assert(bets@.take(i as int) =~= bets@);
    }
    let debts = create_credit_debt_models(debts, state)?;
    Ok(
        ChunkPlan {
            bet_table: get_bet_table_name(provider),
            bet_ids,
            debts,
            wl_by_date_by_user,
        },
    )
}

/// What `user` is owed on `day`; nothing where the debts hold no total.
pub open spec fn debt_of(days: Seq<(Date, Seq<(u128, CurrencyAmount)>)>, day: Date, user: u128) -> int {
    amount_of(value_or(days, day, Seq::<(u128, CurrencyAmount)>::empty()), user)
}

/// Whether no day stands at two places of `days`, and no user at two
/// places of a day.
pub open spec fn debts_well_keyed(days: Seq<(Date, Seq<(u128, CurrencyAmount)>)>) -> bool {
    &&& distinct_keys(days)
    &&& forall|i: int| 0 <= i < days.len() ==> distinct_keys((#[trigger] days[i]).1)
}

/// Commission distribution: the bet of a credit player raises, on the
/// bet's settlement day, what each member of the player's upline is owed
/// by exactly the commission and the change of funds that the bet holds
/// at the member's rank, where the members are distinct users. What
/// anybody is owed on another day, and what anybody else is owed on this
/// day, stays as it was.
pub proof fn lemma_bet_settles_commission(
    totals: ChunkTotals,
    bet: Bet,
    credit_players: Map<u128, bool>,
    uplines: Map<u128, Vec<User>>,
)
    requires
        credit_players.contains_key(bet.user_id.0) && credit_players[bet.user_id.0],
        uplines.contains_key(bet.user_id.0),
        distinct_members(uplines[bet.user_id.0]@),
        debts_well_keyed(totals.debts),
        bet_settled(totals, bet, credit_players, uplines) is Ok,
    ensures
        ({
            let after = bet_settled(totals, bet, credit_players, uplines)->Ok_0;
            let day = figures_date(bet.last_status_change);
            let upline = uplines[bet.user_id.0]@;
            &&& debts_well_keyed(after.debts)
            &&& forall|i: int|
                0 <= i < upline.len() ==> debt_of(after.debts, day, (#[trigger] upline[i]).id.0)
                    == debt_of(totals.debts, day, upline[i].id.0) + bet.commission_amount@[upline[
                    i
                ].position.rank()] + bet.funds_delta@[upline[i].position.rank()]
            &&& forall|user: u128|
                (forall|i: int| 0 <= i < upline.len() ==> (#[trigger] upline[i]).id.0 != user)
                    ==> debt_of(after.debts, day, user) == debt_of(totals.debts, day, user)
            &&& forall|other_day: Date, user: u128|
                other_day != day ==> #[trigger] debt_of(after.debts, other_day, user) == debt_of(
                    totals.debts,
                    other_day,
                    user,
                )
        }),
{
    let after = bet_settled(totals, bet, credit_players, uplines)->Ok_0;
    let day = figures_date(bet.last_status_change);
    let upline = uplines[bet.user_id.0]@;
    let empty = Seq::<(u128, CurrencyAmount)>::empty();
    let held = value_or(totals.debts, day, empty);
    let settled = upline_settled(held, upline, bet)->0;
    if has_key(totals.debts, day) {
        lemma_place_holds_key(totals.debts, day);
    }
    assert(distinct_keys(held));
    lemma_commission_distribution(held, upline, bet);
    lemma_upline_settled(held, upline, bet, 0);
    lemma_put(totals.debts, day, settled);
    assert(after.debts == put(totals.debts, day, settled));
    assert(value_or(after.debts, day, empty) == settled);
    assert forall|i: int| 0 <= i < after.debts.len() implies distinct_keys(
        (#[trigger] after.debts[i]).1,
    ) by {
        if has_key(totals.debts, day) {
            if i != place_of(totals.debts, day) {
                assert(after.debts[i] == totals.debts[i]);
            }
        } else {
            if i < totals.debts.len() {
                assert(after.debts[i] == totals.debts[i]);
            }
        }
    }
    assert forall|other_day: Date, user: u128| other_day != day implies #[trigger] debt_of(
        after.debts,
        other_day,
        user,
    ) == debt_of(totals.debts, other_day, user) by {
        assert(value_or(after.debts, other_day, empty) == value_or(
            totals.debts,
            other_day,
            empty,
        ));
    }
}

/// The bet of an owner who is no credit player books no debt.
pub proof fn lemma_no_debt_without_credit(
    totals: ChunkTotals,
    bet: Bet,
    credit_players: Map<u128, bool>,
    uplines: Map<u128, Vec<User>>,
)
    requires
        !(credit_players.contains_key(bet.user_id.0) && credit_players[bet.user_id.0]),
    ensures
        bet_settled(totals, bet, credit_players, uplines) matches Ok(after) ==> after.debts
            == totals.debts,
{
}

/// A chunk without a bet of a credit player leaves the debts as they
/// were: settling it writes nothing to the debt ledger.
pub proof fn lemma_no_debts_without_credit_players(
    bets: Seq<Bet>,
    start: ChunkTotals,
    credit_players: Map<u128, bool>,
    uplines: Map<u128, Vec<User>>,
)
    requires
        forall|i: int|
            0 <= i < bets.len() ==> !(credit_players.contains_key((#[trigger] bets[i]).user_id.0)
                && credit_players[bets[i].user_id.0]),
    ensures
        chunk_settled(bets, start, credit_players, uplines) matches Ok(after) ==> after.debts
            == start.debts,
    decreases bets.len(),
{
    if bets.len() > 0 {
        let shorter = bets.drop_last();
        assert forall|i: int| 0 <= i < shorter.len() implies !(credit_players.contains_key(
            (#[trigger] shorter[i]).user_id.0,
        ) && credit_players[shorter[i].user_id.0]) by {
            assert(shorter[i] == bets[i]);
        }
        lemma_no_debts_without_credit_players(shorter, start, credit_players, uplines);
        assert(bets.last() == bets[bets.len() - 1]);
    }
}

/// The owners of the bets of a chunk whose upline is not in `uplines`,
/// each once, in the order in which they first own a bet.
pub open spec fn owners_without_upline(bets: Seq<Bet>, uplines: Map<u128, Vec<User>>) -> Seq<
    UserID,
>
    decreases bets.len(),
{
    if bets.len() == 0 {
        Seq::empty()
    } else {
        let before = owners_without_upline(bets.drop_last(), uplines);
        let owner = bets.last().user_id;
        if uplines.contains_key(owner.0) || before.contains(owner) {
            before
        } else {
            before.push(owner)
        }
    }
}

/// The owners of the bets of a chunk whose upline is not in the run's
/// cache yet, each once, in the order in which they first own a bet.
pub fn uplines_to_fetch(bets: &Vec<Bet>, state: &State) -> (owners: Vec<UserID>)
    ensures
        owners@ == owners_without_upline(bets@, state.upline@),
{
    let mut owners: Vec<UserID> = Vec::new();
    let mut i: usize = 0;
    proof {
        assert(bets@.take(0) =~= Seq::<Bet>::empty());
    }
    while i < bets.len()
        invariant
            i <= bets@.len(),
            owners@ == owners_without_upline(bets@.take(i as int), state.upline@),
        decreases bets@.len() - i,
    {
        let owner = bets[i].user_id;
        proof {
            assert(bets@.take(i + 1).drop_last() =~= bets@.take(i as int));
            assert(bets@.take(i + 1).last() == bets@[i as int]);
        }
        if !state.has_upline(owner) {
            let mut found = false;
            let mut j: usize = 0;
            while j < owners.len()
                invariant
                    j <= owners@.len(),
                    found <==> exists|k: int| 0 <= k < j && owners@[k] == owner,
                decreases owners@.len() - j,
            {
                if owners[j] == owner {
                    found = true;
                }
                j += 1;
            }
            if !found {
                owners.push(owner);
            }
        }
        i += 1;
    }
    proof {
        assert(bets@.take(i as int) =~= bets@);
    }
    owners
}

/// One update of the balance ledger: in the partition of `month`, the
/// amounts are added to the rows of their users from the checkpoint
/// `from` on.
pub struct LedgerUpdate {
    pub month: Date,
    pub partition: Partition,
    pub day: Date,
    pub from: Timestamp,
    pub amounts: Vec<(UserID, i64)>,
}

/// Whether `update` adds the wins and losses `totals` of the settlement
/// day `day` to the partition of `month`.
pub open spec fn is_ledger_update(
    update: LedgerUpdate,
    month: Date,
    day: Date,
    totals: Seq<(u128, i64)>,
) -> bool {
    &&& update.month == month
    &&& update.partition.holds(OPENING_BALANCE_TABLE_NAME@, month)
    &&& update.day == day
    &&& update.from == Timestamp::cutoff_on(day)
    &&& update.amounts@ == Seq::new(totals.len(), |i: int| (UserID(totals[i].0), totals[i].1))
}

/// The updates that the wins and losses `days` ask for, as month, day and
/// amounts: for every settlement day, in turn, one update for every month
/// from that of the day through that of `current`. A running balance
/// carries a win or loss into every later month.
pub open spec fn ledger_updates_of(days: Seq<(Date, Seq<(u128, i64)>)>, current: Date) -> Seq<
    (Date, Date, Seq<(u128, i64)>),
>
    decreases days.len(),
{
    if days.len() == 0 {
        Seq::empty()
    } else {
        ledger_updates_of(days.drop_last(), current) + Seq::new(
            months_through(days.last().0, current).len(),
            |k: int| (months_through(days.last().0, current)[k], days.last().0, days.last().1),
        )
    }
}

/// The amounts of one settlement day, each under its user.
fn amounts_of(totals: &KeyedList<u128, i64>) -> (amounts: Vec<(UserID, i64)>)
    ensures
        amounts@ == Seq::new(
            totals.entries().len(),
            |i: int| (UserID(totals.entries()[i].0), totals.entries()[i].1),
        ),
{
    let mut amounts: Vec<(UserID, i64)> = Vec::new();
    let mut i: usize = 0;
    while i < totals.len()
        invariant
            i <= totals.entries().len(),
            amounts@ == Seq::new(
                i as nat,
                |j: int| (UserID(totals.entries()[j].0), totals.entries()[j].1),
            ),
        decreases totals.entries().len() - i,
    {
        amounts.push((UserID(totals.key_at(i)), *totals.value_at(i)));
        i += 1;
        assert(amounts@ =~= Seq::new(
            i as nat,
            |j: int| (UserID(totals.entries()[j].0), totals.entries()[j].1),
        ));
    }
    amounts
}

/// The updates of the balance ledger that the wins and losses of a chunk
/// ask for: every settlement day's amounts go into the partition of the
/// day's month and into that of every later month through the month of
/// `today`.
pub fn ledger_updates(wl_by_date_by_user: &WlByDateByUser, today: Date) -> (plan: Vec<
    LedgerUpdate,
>)
    ensures
        plan@.len() == ledger_updates_of(nested(*wl_by_date_by_user), today).len(),
        forall|k: int|
            0 <= k < plan@.len() ==> is_ledger_update(
                #[trigger] plan@[k],
                ledger_updates_of(nested(*wl_by_date_by_user), today)[k].0,
                ledger_updates_of(nested(*wl_by_date_by_user), today)[k].1,
                ledger_updates_of(nested(*wl_by_date_by_user), today)[k].2,
            ),
{
    let mut plan: Vec<LedgerUpdate> = Vec::new();
    let ghost days = nested(*wl_by_date_by_user);
    let mut d: usize = 0;
    proof {
        assert(days.take(0) =~= Seq::<(Date, Seq<(u128, i64)>)>::empty());
    }
    while d < wl_by_date_by_user.len()
        invariant
            d <= days.len(),
            days == nested(*wl_by_date_by_user),
            days.len() == wl_by_date_by_user.entries().len(),
            plan@.len() == ledger_updates_of(days.take(d as int), today).len(),
            forall|k: int|
                0 <= k < plan@.len() ==> is_ledger_update(
                    #[trigger] plan@[k],
                    ledger_updates_of(days.take(d as int), today)[k].0,
                    ledger_updates_of(days.take(d as int), today)[k].1,
                    ledger_updates_of(days.take(d as int), today)[k].2,
                ),
        decreases days.len() - d,
    {
        let day = wl_by_date_by_user.key_at(d);
        let totals = wl_by_date_by_user.value_at(d);
        let months = months_from_through(day, today);
        let ghost before = ledger_updates_of(days.take(d as int), today);
        let ghost after = ledger_updates_of(days.take(d + 1), today);
        proof {
            assert(days.take(d + 1).drop_last() =~= days.take(d as int));
            assert(days.take(d + 1).last() == days[d as int]);
            assert(days[d as int] == (day, totals.entries()));
            assert(after.len() == before.len() + months@.len());
        }
        let mut m: usize = 0;
        while m < months.len()
            invariant
                m <= months@.len(),
                months@ == months_through(day, today),
                after.len() == before.len() + months@.len(),
                forall|k: int| 0 <= k < before.len() ==> after[k] == before[k],
                forall|k: int|
                    0 <= k < months@.len() ==> after[before.len() + k] == (
                        months@[k],
                        day,
                        totals.entries(),
                    ),
                plan@.len() == before.len() + m,
                forall|k: int|
                    0 <= k < plan@.len() ==> is_ledger_update(
                        #[trigger] plan@[k],
                        after[k].0,
                        after[k].1,
                        after[k].2,
                    ),
            decreases months@.len() - m,
        {
            let month = months[m];
            plan.push(
                LedgerUpdate {
                    month,
                    partition: Partition::locate(OPENING_BALANCE_TABLE_NAME, month),
                    day,
                    from: get_hong_kong_11_hours_from_date(day),
                    amounts: amounts_of(totals),
                },
            );
            m += 1;
        }
        d += 1;
    }
    proof {
        assert(days.take(d as int) =~= days);
    }
    plan
}

} // verus!
