//! Commission debts: what the upline of a credit player is owed for a bet.
//!
//! For every member of the upline, the bet holds a commission and a change
//! of funds at the member's rank. Their sum goes onto the member's running
//! total for the settlement day of the bet.

use crate::calendar::{get_hong_kong_11_hours_from_date, Date, Timestamp};
use crate::error::ArchiveError;
use crate::ident::new_row_id;
use crate::idmap::{id_map_contains, id_map_get, id_map_insert};
use crate::keyed::{
    distinct_keys, has_key, lemma_place_holds_key, lemma_place_of, lemma_put, nested, place_of,
    put, KeyedList,
};
use crate::records::{Bet, CreditDebt, CurrencyAmount, User};
use crate::state::State;
use crate::types::{Currency, UserID, Username};
use rustc_hash::FxHashMap;
use vstd::prelude::*;

verus! {

/// The running totals of one settlement day, by user.
pub type UserDebts = KeyedList<u128, CurrencyAmount>;

/// The running totals of a chunk, by settlement day and user.
pub type DebtsByDate = KeyedList<Date, KeyedList<u128, CurrencyAmount>>;

/// Whether `x` is a 64-bit amount.
pub open spec fn fits_i64(x: int) -> bool {
    i64::MIN <= x <= i64::MAX
}

/// The running total of `user`; nothing where the user has none.
pub open spec fn amount_of(figures: Seq<(u128, CurrencyAmount)>, user: u128) -> int {
    if has_key(figures, user) {
        figures[place_of(figures, user)].1.amount as int
    } else {
        0
    }
}

/// `figures` with `amount` added to the running total of `user`. A user
/// without a total gets one, in the given currency; a user with a total
/// keeps the currency it has.
pub open spec fn credited(
    figures: Seq<(u128, CurrencyAmount)>,
    user: u128,
    currency: Currency,
    amount: int,
) -> Seq<(u128, CurrencyAmount)> {
    if has_key(figures, user) {
        let held = figures[place_of(figures, user)].1;
        put(
            figures,
            user,
            CurrencyAmount { currency: held.currency, amount: (held.amount + amount) as i64 },
        )
    } else {
        put(figures, user, CurrencyAmount { currency, amount: amount as i64 })
    }
}

/// `figures` after every member of `upline`, in turn, was credited with
/// what the bet holds at the member's rank; `None` where a sum or a
/// running total leaves the range of a 64-bit amount on the way.
pub open spec fn upline_settled(
    figures: Seq<(u128, CurrencyAmount)>,
    upline: Seq<User>,
    bet: Bet,
) -> Option<Seq<(u128, CurrencyAmount)>>
    decreases upline.len(),
{
    if upline.len() == 0 {
        Some(figures)
    } else {
        match upline_settled(figures, upline.drop_last(), bet) {
            None => None,
            Some(before) => {
                let member = upline.last();
                let total = bet.contribution(member.position.rank());
                if fits_i64(total) && fits_i64(amount_of(before, member.id.0) + total) {
                    Some(credited(before, member.id.0, bet.currency, total))
                } else {
                    None
                }
            },
        }
    }
}

/// `names` after the name of every member of `upline`, in turn, was
/// remembered: a member whose name was known keeps it.
pub open spec fn names_with(names: Map<u128, Username>, upline: Seq<User>) -> Map<
    u128,
    Username,
>
    decreases upline.len(),
{
    if upline.len() == 0 {
        names
    } else {
        let before = names_with(names, upline.drop_last());
        let member = upline.last();
        if before.contains_key(member.id.0) {
            before
        } else {
            before.insert(member.id.0, member.username)
        }
    }
}

/// What the members of `upline` that are `user` are owed for the bet, in
/// all.
pub open spec fn owed(upline: Seq<User>, bet: Bet, user: u128) -> int
    decreases upline.len(),
{
    if upline.len() == 0 {
        0
    } else {
        owed(upline.drop_last(), bet, user) + if upline.last().id.0 == user {
            bet.contribution(upline.last().position.rank())
        } else {
            0
        }
    }
}

/// Whether no user stands at two places of `upline`.
pub open spec fn distinct_members(upline: Seq<User>) -> bool {
    forall|i: int, j: int|
        #![trigger upline[i], upline[j]]
        0 <= i < j < upline.len() ==> upline[i].id != upline[j].id
}

/// Where settling a part of an upline leaves the range of amounts,
/// settling all of it does.
pub proof fn lemma_overflow_stays(
    figures: Seq<(u128, CurrencyAmount)>,
    upline: Seq<User>,
    bet: Bet,
    part: int,
)
    requires
        0 <= part <= upline.len(),
        upline_settled(figures, upline.take(part), bet) is None,
    ensures
        upline_settled(figures, upline, bet) is None,
    decreases upline.len() - part,
{
    if part < upline.len() {
        assert(upline.take(part + 1).drop_last() =~= upline.take(part));
        lemma_overflow_stays(figures, upline, bet, part + 1);
    } else {
        assert(upline.take(part) =~= upline);
    }
}

/// Crediting a user keeps the users distinct, adds the amount to the
/// user's total and leaves every other total as it was.
pub proof fn lemma_credited(
    figures: Seq<(u128, CurrencyAmount)>,
    user: u128,
    currency: Currency,
    amount: int,
)
    requires
        distinct_keys(figures),
        fits_i64(amount),
        fits_i64(amount_of(figures, user) + amount),
    ensures
        distinct_keys(credited(figures, user, currency, amount)),
        amount_of(credited(figures, user, currency, amount), user) == amount_of(figures, user)
            + amount,
        forall|other: u128|
            other != user ==> amount_of(credited(figures, user, currency, amount), other)
                == amount_of(figures, other),
{
    let after = credited(figures, user, currency, amount);
    let value = if has_key(figures, user) {
        let held = figures[place_of(figures, user)].1;
        CurrencyAmount { currency: held.currency, amount: (held.amount + amount) as i64 }
    } else {
        CurrencyAmount { currency, amount: amount as i64 }
    };
    lemma_put(figures, user, value);
    assert(after == put(figures, user, value));
    assert forall|other: u128| other != user implies amount_of(after, other) == amount_of(
        figures,
        other,
    ) by {
        if has_key(figures, other) {
            let q = place_of(figures, other);
            lemma_place_holds_key(figures, other);
            lemma_place_of(figures, q);
            if has_key(figures, user) {
                assert(after[q] == figures[q]);
            } else {
                assert(after[q] == figures[q]);
            }
            lemma_place_of(after, q);
        }
    }
}

/// Settling an upline adds to the running total of every user what the
/// members that are this user are owed, and nothing else.
pub proof fn lemma_upline_settled(
    figures: Seq<(u128, CurrencyAmount)>,
    upline: Seq<User>,
    bet: Bet,
    user: u128,
)
    requires
        distinct_keys(figures),
        upline_settled(figures, upline, bet) is Some,
    ensures
        distinct_keys(upline_settled(figures, upline, bet)->0),
        amount_of(upline_settled(figures, upline, bet)->0, user) == amount_of(figures, user)
            + owed(upline, bet, user),
    decreases upline.len(),
{
    if upline.len() > 0 {
        let before = upline_settled(figures, upline.drop_last(), bet)->0;
        lemma_upline_settled(figures, upline.drop_last(), bet, user);
        let member = upline.last();
        let total = bet.contribution(member.position.rank());
        lemma_credited(before, member.id.0, bet.currency, total);
    }
}

/// A user who stands at one place of an upline, and at no other, is owed
/// what the bet holds at the rank of that place.
pub proof fn lemma_owed_once(upline: Seq<User>, bet: Bet, place: int)
    requires
        distinct_members(upline),
        0 <= place < upline.len(),
    ensures
        owed(upline, bet, upline[place].id.0) == bet.contribution(upline[place].position.rank()),
    decreases upline.len(),
{
    let user = upline[place].id.0;
    let shorter = upline.drop_last();
    assert forall|i: int, j: int| 0 <= i < j < shorter.len() implies shorter[i].id
        != shorter[j].id by {
        assert(upline[i].id != upline[j].id);
    }
    if place == upline.len() - 1 {
        assert forall|i: int| 0 <= i < shorter.len() implies (#[trigger] shorter[i]).id.0
            != user by {
            assert(upline[i].id != upline[place].id);
        }
        lemma_owed_stranger(shorter, bet, user);
    } else {
        assert(shorter[place] == upline[place]);
        lemma_owed_once(shorter, bet, place);
        assert(upline[place].id != upline[upline.len() - 1].id);
    }
}

/// A user who stands nowhere in an upline is owed nothing.
pub proof fn lemma_owed_stranger(upline: Seq<User>, bet: Bet, user: u128)
    requires
        forall|i: int| 0 <= i < upline.len() ==> (#[trigger] upline[i]).id.0 != user,
    ensures
        owed(upline, bet, user) == 0,
    decreases upline.len(),
{
    if upline.len() > 0 {
        let shorter = upline.drop_last();
        assert forall|i: int| 0 <= i < shorter.len() implies (#[trigger] shorter[i]).id.0
            != user by {
            assert(shorter[i] == upline[i]);
        }
        lemma_owed_stranger(shorter, bet, user);
        assert(upline.last() == upline[upline.len() - 1]);
    }
}

/// Commission distribution: where the members of an upline are distinct
/// users, settling a bet raises the running total of each member by
/// exactly the commission and the change of funds that the bet holds at
/// the member's rank, and leaves the total of everybody else alone.
pub proof fn lemma_commission_distribution(
    figures: Seq<(u128, CurrencyAmount)>,
    upline: Seq<User>,
    bet: Bet,
)
    requires
        distinct_keys(figures),
        distinct_members(upline),
        upline_settled(figures, upline, bet) is Some,
    ensures
        forall|i: int|
            0 <= i < upline.len() ==> amount_of(
                upline_settled(figures, upline, bet)->0,
                (#[trigger] upline[i]).id.0,
            ) == amount_of(figures, upline[i].id.0) + bet.commission_amount@[upline[
                i
            ].position.rank()] + bet.funds_delta@[upline[i].position.rank()],
        forall|user: u128|
            (forall|i: int| 0 <= i < upline.len() ==> (#[trigger] upline[i]).id.0 != user)
                ==> amount_of(upline_settled(figures, upline, bet)->0, user) == amount_of(
                figures,
                user,
            ),
{
    let after = upline_settled(figures, upline, bet)->0;
    assert forall|i: int| 0 <= i < upline.len() implies amount_of(
        after,
        (#[trigger] upline[i]).id.0,
    ) == amount_of(figures, upline[i].id.0) + bet.commission_amount@[upline[i].position.rank()]
        + bet.funds_delta@[upline[i].position.rank()] by {
        lemma_upline_settled(figures, upline, bet, upline[i].id.0);
        lemma_owed_once(upline, bet, i);
    }
    assert forall|user: u128|
        (forall|i: int| 0 <= i < upline.len() ==> (#[trigger] upline[i]).id.0 != user)
            implies amount_of(after, user) == amount_of(figures, user) by {
        lemma_upline_settled(figures, upline, bet, user);
        lemma_owed_stranger(upline, bet, user);
    }
}

/// Credits every member of `upline` with what `bet` holds at the member's
/// rank, and remembers the member's name.
fn credit_upline(
    bet: &Bet,
    upline: &Vec<User>,
    figures: &mut UserDebts,
    names: &mut FxHashMap<u128, Username>,
) -> (result: Result<(), ArchiveError>)
    requires
        old(figures).is_valid(),
    ensures
        final(figures).is_valid(),
        match upline_settled(old(figures).entries(), upline@, *bet) {
            Some(after) => result is Ok && final(figures).entries() == after && final(names)@
                == names_with(old(names)@, upline@),
            None => result == Err::<(), ArchiveError>(ArchiveError::AmountOverflow),
        },
{
    let mut i: usize = 0;
    assert(upline@.take(0) =~= Seq::<User>::empty());
    while i < upline.len()
        invariant
            i <= upline@.len(),
            figures.is_valid(),
            upline_settled(old(figures).entries(), upline@.take(i as int), *bet) == Some(
                figures.entries(),
            ),
            names@ == names_with(old(names)@, upline@.take(i as int)),
        decreases upline@.len() - i,
    {
        let member = &upline[i];
        proof {
            assert(upline@.take(i + 1).drop_last() =~= upline@.take(i as int));
            assert(upline@.take(i + 1).last() == upline@[i as int]);
        }
        if !id_map_contains(names, member.id.0) {
            id_map_insert(names, member.id.0, member.username.clone());
        }
        let rank: usize = member.position.index();
        let total: i64 = match bet.commission_amount[rank].checked_add(bet.funds_delta[rank]) {
            Some(total) => total,
            None => {
                proof {
                    lemma_overflow_stays(old(figures).entries(), upline@, *bet, i + 1);
                }
                return Err(ArchiveError::AmountOverflow);
            },
        };
        match figures.find(&member.id.0) {
            Some(place) => {
                let held = figures.value_at(place);
                let sum: i64 = match held.amount.checked_add(total) {
                    Some(sum) => sum,
                    None => {
                        proof {
                            lemma_overflow_stays(old(figures).entries(), upline@, *bet, i + 1);
                        }
                        return Err(ArchiveError::AmountOverflow);
                    },
                };
                let currency = held.currency.clone();
                figures.set_value(place, CurrencyAmount { currency, amount: sum });
            },
            None => {
                figures.push(
                    member.id.0,
                    CurrencyAmount { currency: bet.currency.clone(), amount: total },
                );
            },
        }
        i += 1;
    }
    assert(upline@.take(i as int) =~= upline@);
    Ok(())
}

/// Books the debts of one bet: adds to the running totals of the bet's
/// settlement day what the upline of the bet's owner is owed for it, and
/// remembers the names of the upline's members.
///
/// Only the bet of a credit player books a debt: the bet of any other
/// owner is passed over, and nothing changes. The upline is read from the
/// run's cache: the bet of a credit player who has none there is an error,
/// and nothing changes. A sum or a running total that leaves the range of
/// a 64-bit amount is an error too.
pub fn calculate_debt_by_bet(
    bet: &Bet,
    existing_figures: &mut UserDebts,
    state: &mut State,
) -> (result: Result<(), ArchiveError>)
    requires
        old(existing_figures).is_valid(),
    ensures
        final(existing_figures).is_valid(),
        final(state).credit_players == old(state).credit_players,
        final(state).upline == old(state).upline,
        !old(state).credit_player(bet.user_id) ==> {
            &&& result is Ok
            &&& final(existing_figures).entries() == old(existing_figures).entries()
            &&& final(state).username_by_user_id == old(state).username_by_user_id
        },
        old(state).credit_player(bet.user_id) && !old(state).knows_upline(bet.user_id) ==> {
            &&& result == Err::<(), ArchiveError>(
                ArchiveError::UplineNotFound { user_id: bet.user_id },
            )
            &&& final(existing_figures).entries() == old(existing_figures).entries()
            &&& final(state).username_by_user_id == old(state).username_by_user_id
        },
        old(state).credit_player(bet.user_id) && old(state).knows_upline(bet.user_id)
            ==> match upline_settled(
            old(existing_figures).entries(),
            old(state).upline_of(bet.user_id),
            *bet,
        ) {
            Some(after) => {
                &&& result is Ok
                &&& final(existing_figures).entries() == after
                &&& final(state).username_by_user_id@ == names_with(
                    old(state).username_by_user_id@,
                    old(state).upline_of(bet.user_id),
                )
            },
            None => result == Err::<(), ArchiveError>(ArchiveError::AmountOverflow),
        },
{
    if !state.is_credit_player(bet.user_id) {
        return Ok(());
    }
    let bet_user_upline = match id_map_get(&state.upline, bet.user_id.0) {
        Some(upline) => upline,
        None => {
            return Err(ArchiveError::UplineNotFound { user_id: bet.user_id });
        },
    };
    credit_upline(bet, bet_user_upline, existing_figures, &mut state.username_by_user_id)
}

/// Whether `row` is the ledger row of what `user` is owed for `day`: it
/// holds the user, the amount and its currency, the name that `names` has
/// for the user, and the day as its cutoff. Its identity is free.
pub open spec fn is_debt_row(
    row: CreditDebt,
    day: Date,
    user: u128,
    debt: CurrencyAmount,
    names: Map<u128, Username>,
) -> bool {
    &&& row.user_id == UserID(user)
    &&& row.currency == debt.currency
    &&& row.date == Timestamp::cutoff_on(day)
    &&& row.username == names[user]
    &&& row.debt_amount == debt.amount
}

/// Whether `rows` holds the ledger rows of the running totals of `day`,
/// one for each user and in the users' order.
pub open spec fn are_debt_rows(
    rows: Seq<CreditDebt>,
    day: Date,
    figures: Seq<(u128, CurrencyAmount)>,
    names: Map<u128, Username>,
) -> bool {
    &&& rows.len() == figures.len()
    &&& forall|i: int|
        0 <= i < figures.len() ==> is_debt_row(
            #[trigger] rows[i],
            day,
            figures[i].0,
            figures[i].1,
            names,
        )
}

/// The first user of `figures` for whom `names` has no name, if there is
/// one.
pub open spec fn unnamed_user(
    figures: Seq<(u128, CurrencyAmount)>,
    names: Map<u128, Username>,
) -> Option<u128>
    decreases figures.len(),
{
    if figures.len() == 0 {
        None
    } else if !names.contains_key(figures[0].0) {
        Some(figures[0].0)
    } else {
        unnamed_user(figures.drop_first(), names)
    }
}

/// The first user of the first day of `days` for whom `names` has no
/// name, if there is one.
pub open spec fn unnamed_in_days(
    days: Seq<(Date, Seq<(u128, CurrencyAmount)>)>,
    names: Map<u128, Username>,
) -> Option<u128>
    decreases days.len(),
{
    if days.len() == 0 {
        None
    } else {
        match unnamed_user(days[0].1, names) {
            Some(user) => Some(user),
            None => unnamed_in_days(days.drop_first(), names),
        }
    }
}

/// Where the users before a place all have names, the first user without
/// one is the first from that place on.
pub proof fn lemma_unnamed_user_from(
    figures: Seq<(u128, CurrencyAmount)>,
    names: Map<u128, Username>,
    from: int,
)
    requires
        0 <= from <= figures.len(),
        forall|i: int| 0 <= i < from ==> names.contains_key((#[trigger] figures[i]).0),
    ensures
        unnamed_user(figures, names) == unnamed_user(figures.skip(from), names),
    decreases from,
{
    if from == 0 {
        assert(figures.skip(0) =~= figures);
    } else {
        let rest = figures.drop_first();
        assert forall|i: int| 0 <= i < from - 1 implies names.contains_key(
            (#[trigger] rest[i]).0,
        ) by {
            assert(rest[i] == figures[i + 1]);
        }
        lemma_unnamed_user_from(rest, names, from - 1);
        assert(rest.skip(from - 1) =~= figures.skip(from));
        assert(names.contains_key(figures[0].0));
    }
}

/// Where every user of the days before a place has a name, the first user
/// without one is the first from that place on.
pub proof fn lemma_unnamed_in_days_from(
    days: Seq<(Date, Seq<(u128, CurrencyAmount)>)>,
    names: Map<u128, Username>,
    from: int,
)
    requires
        0 <= from <= days.len(),
        forall|i: int| 0 <= i < from ==> unnamed_user((#[trigger] days[i]).1, names) is None,
    ensures
        unnamed_in_days(days, names) == unnamed_in_days(days.skip(from), names),
    decreases from,
{
    if from == 0 {
        assert(days.skip(0) =~= days);
    } else {
        let rest = days.drop_first();
        assert forall|i: int| 0 <= i < from - 1 implies unnamed_user(
            (#[trigger] rest[i]).1,
            names,
        ) is None by {
            assert(rest[i] == days[i + 1]);
        }
        lemma_unnamed_in_days_from(rest, names, from - 1);
        assert(rest.skip(from - 1) =~= days.skip(from));
        assert(unnamed_user(days[0].1, names) is None);
    }
}

/// The ledger rows of the running totals of one day.
fn day_debt_models(day: Date, debts: &UserDebts, state: &State) -> (result: Result<
    Vec<CreditDebt>,
    ArchiveError,
>)
    ensures
        match unnamed_user(debts.entries(), state.username_by_user_id@) {
            Some(user) => result == Err::<Vec<CreditDebt>, ArchiveError>(
                ArchiveError::UsernameNotFound { user_id: UserID(user) },
            ),
            None => result matches Ok(rows) && are_debt_rows(
                rows@,
                day,
                debts.entries(),
                state.username_by_user_id@,
            ),
        },
{
    let mut rows: Vec<CreditDebt> = Vec::new();
    let mut i: usize = 0;
    while i < debts.len()
        invariant
            i <= debts.entries().len(),
            rows@.len() == i,
            forall|j: int|
                0 <= j < i ==> state.username_by_user_id@.contains_key(
                    (#[trigger] debts.entries()[j]).0,
                ),
            forall|j: int|
                0 <= j < i ==> is_debt_row(
                    #[trigger] rows@[j],
                    day,
                    debts.entries()[j].0,
                    debts.entries()[j].1,
                    state.username_by_user_id@,
                ),
        decreases debts.entries().len() - i,
    {
        let user: u128 = debts.key_at(i);
        let debt = debts.value_at(i);
        proof {
            lemma_unnamed_user_from(debts.entries(), state.username_by_user_id@, i as int);
            assert(debts.entries().skip(i as int)[0] == debts.entries()[i as int]);
        }
        let username = match id_map_get(&state.username_by_user_id, user) {
            Some(name) => name.clone(),
            None => {
                return Err(ArchiveError::UsernameNotFound { user_id: UserID(user) });
            },
        };
        rows.push(
            CreditDebt {
                id: new_row_id(),
                username,
                currency: debt.currency.clone(),
                user_id: UserID(user),
                date: get_hong_kong_11_hours_from_date(day),
                debt_amount: debt.amount,
            },
        );
        i += 1;
    }
    proof {
        lemma_unnamed_user_from(debts.entries(), state.username_by_user_id@, i as int);
        assert(debts.entries().skip(i as int) =~= Seq::<(u128, CurrencyAmount)>::empty());
    }
    Ok(rows)
}

/// Whether `models` holds the ledger rows of the running totals `days`:
/// for every day, in the order of the days, the day and its rows.
pub open spec fn are_debt_models(
    models: Seq<(Date, Vec<CreditDebt>)>,
    days: Seq<(Date, Seq<(u128, CurrencyAmount)>)>,
    names: Map<u128, Username>,
) -> bool {
    &&& models.len() == days.len()
    &&& forall|d: int|
        0 <= d < days.len() ==> (#[trigger] models[d]).0 == days[d].0 && are_debt_rows(
            models[d].1@,
            days[d].0,
            days[d].1,
            names,
        )
}

/// Turns the running totals of a chunk into rows of the debt ledger: for
/// every settlement day, in the order of the days, one row for every user
/// of the day, in the order of the users. Every row gets a fresh
/// identity.
///
/// A user without a name in the run's cache is an error, which holds the
/// first such user.
pub fn create_credit_debt_models(figures: DebtsByDate, state: &State) -> (result: Result<
    Vec<(Date, Vec<CreditDebt>)>,
    ArchiveError,
>)
    ensures
        match unnamed_in_days(nested(figures), state.username_by_user_id@) {
            Some(user) => result == Err::<Vec<(Date, Vec<CreditDebt>)>, ArchiveError>(
                ArchiveError::UsernameNotFound { user_id: UserID(user) },
            ),
            None => result matches Ok(models) && are_debt_models(
                models@,
                nested(figures),
                state.username_by_user_id@,
            ),
        },
{
    let mut models: Vec<(Date, Vec<CreditDebt>)> = Vec::new();
    let mut d: usize = 0;
    let ghost days = nested(figures);
    while d < figures.len()
        invariant
            d <= figures.entries().len(),
            days == nested(figures),
            models@.len() == d,
            forall|j: int|
                0 <= j < d ==> unnamed_user(
                    (#[trigger] days[j]).1,
                    state.username_by_user_id@,
                ) is None,
            forall|j: int|
                0 <= j < d ==> (#[trigger] models@[j]).0 == days[j].0 && are_debt_rows(
                    models@[j].1@,
                    days[j].0,
                    days[j].1,
                    state.username_by_user_id@,
                ),
        decreases figures.entries().len() - d,
    {
        let day = figures.key_at(d);
        proof {
            lemma_unnamed_in_days_from(days, state.username_by_user_id@, d as int);
            assert(days.skip(d as int)[0] == days[d as int]);
        }
        let rows = day_debt_models(day, figures.value_at(d), state)?;
        models.push((day, rows));
        d += 1;
    }
    proof {
        lemma_unnamed_in_days_from(days, state.username_by_user_id@, d as int);
        assert(days.skip(d as int) =~= Seq::<(Date, Seq<(u128, CurrencyAmount)>)>::empty());
    }
    Ok(models)
}

} // verus!
