//! The merge semantics of the two ledgers, and a ledger held in memory.
//!
//! Both the balance ledger and the debt ledger hold one amount per user
//! and day. A row that is merged into a ledger is added to the amount that
//! the ledger holds for its user and day; it never replaces it.

use crate::calendar::{lemma_before_is_total_order, Date};
use crate::debts::fits_i64;
use crate::error::ArchiveError;
use crate::keyed::{
    all_valid, distinct_keys, has_key, lemma_nested, lemma_place_holds_key, lemma_put, nested,
    place_of, put, value_or, KeyedList,
};
use crate::settlement::{tallied, tally_win_loss, wl_total};
use crate::types::UserID;
use vstd::prelude::*;

verus! {

/// An amount for a user and a day, to be merged into a ledger.
#[derive(Debug, Clone, Copy, PartialEq, Eq, Structural)]
pub struct LedgerEntry {
    pub user_id: UserID,
    pub day: Date,
    pub amount: i64,
}

/// Whether no day stands at two places of `days`, and no user at two
/// places of a day.
pub open spec fn well_keyed(days: Seq<(Date, Seq<(u128, i64)>)>) -> bool {
    &&& distinct_keys(days)
    &&& forall|i: int| 0 <= i < days.len() ==> distinct_keys((#[trigger] days[i]).1)
}

/// `days` after every entry of `entries` was merged in, in turn; `None`
/// where an amount leaves the range of a 64-bit amount on the way.
pub open spec fn merged(days: Seq<(Date, Seq<(u128, i64)>)>, entries: Seq<LedgerEntry>) -> Option<
    Seq<(Date, Seq<(u128, i64)>)>,
>
    decreases entries.len(),
{
    if entries.len() == 0 {
        Some(days)
    } else {
        match merged(days, entries.drop_last()) {
            None => None,
            Some(before) => {
                let entry = entries.last();
                if fits_i64(wl_total(before, entry.day, entry.user_id.0) + entry.amount) {
                    Some(tallied(before, entry.day, entry.user_id.0, entry.amount as int))
                } else {
                    None
                }
            },
        }
    }
}

/// Merging one amount adds it to what the ledger holds for its user and
/// day, and leaves every other amount of the ledger as it was.
pub proof fn lemma_tallied(
    days: Seq<(Date, Seq<(u128, i64)>)>,
    day: Date,
    user: u128,
    amount: int,
)
    requires
        well_keyed(days),
        fits_i64(wl_total(days, day, user) + amount),
    ensures
        well_keyed(tallied(days, day, user, amount)),
        wl_total(tallied(days, day, user, amount), day, user) == wl_total(days, day, user)
            + amount,
        forall|other_day: Date, other: u128|
            other_day != day || other != user ==> #[trigger] wl_total(
                tallied(days, day, user, amount),
                other_day,
                other,
            ) == wl_total(days, other_day, other),
        forall|other_day: Date|
            other_day != day ==> #[trigger] value_or(
                tallied(days, day, user, amount),
                other_day,
                Seq::<(u128, i64)>::empty(),
            ) == value_or(days, other_day, Seq::<(u128, i64)>::empty()),
{
    let empty = Seq::<(u128, i64)>::empty();
    let totals = value_or(days, day, empty);
    let sum = (value_or(totals, user, 0i64) + amount) as i64;
    let new_totals = put(totals, user, sum);
    let after = tallied(days, day, user, amount);
    if has_key(days, day) {
        lemma_place_holds_key(days, day);
    }
    assert(distinct_keys(totals));
    lemma_put(totals, user, sum);
    lemma_put(days, day, new_totals);
    assert(after == put(days, day, new_totals));
    assert(value_or(after, day, empty) == new_totals);
    assert forall|i: int| 0 <= i < after.len() implies distinct_keys((#[trigger] after[i]).1) by {
        if has_key(days, day) {
            if i != place_of(days, day) {
                assert(after[i] == days[i]);
            }
        } else {
            if i < days.len() {
                assert(after[i] == days[i]);
            }
        }
    }
    assert forall|other_day: Date, other: u128| other_day != day || other != user implies
    #[trigger] wl_total(after, other_day, other) == wl_total(days, other_day, other) by {
        if other_day != day {
            assert(value_or(after, other_day, empty) == value_or(days, other_day, empty));
        } else {
            assert(value_or(new_totals, other, 0i64) == value_or(totals, other, 0i64));
        }
    }
}

/// What `entries` hold for `user` on `day`, in all.
pub open spec fn entry_sum(entries: Seq<LedgerEntry>, day: Date, user: u128) -> int
    decreases entries.len(),
{
    if entries.len() == 0 {
        0
    } else {
        entry_sum(entries.drop_last(), day, user) + if entries.last().day == day
            && entries.last().user_id.0 == user {
            entries.last().amount as int
        } else {
            0
        }
    }
}

/// Merging entries adds, to what the ledger holds for a user and a day,
/// what the entries hold for the two, and keeps the rows of every day that
/// no entry names.
pub proof fn lemma_merged_totals(days: Seq<(Date, Seq<(u128, i64)>)>, entries: Seq<LedgerEntry>)
    requires
        well_keyed(days),
        merged(days, entries) is Some,
    ensures
        well_keyed(merged(days, entries)->0),
        forall|day: Date, user: u128| #[trigger]
            wl_total(merged(days, entries)->0, day, user) == wl_total(days, day, user) + entry_sum(
                entries,
                day,
                user,
            ),
        forall|day: Date|
            (forall|i: int| 0 <= i < entries.len() ==> (#[trigger] entries[i]).day != day)
                ==> value_or(merged(days, entries)->0, day, Seq::<(u128, i64)>::empty())
                == value_or(days, day, Seq::<(u128, i64)>::empty()),
    decreases entries.len(),
{
    if entries.len() > 0 {
        let shorter = entries.drop_last();
        let before = merged(days, shorter)->0;
        let entry = entries.last();
        let after = merged(days, entries)->0;
        let empty = Seq::<(u128, i64)>::empty();
        lemma_merged_totals(days, shorter);
        lemma_tallied(before, entry.day, entry.user_id.0, entry.amount as int);
        assert forall|day: Date, user: u128| #[trigger]
            wl_total(after, day, user) == wl_total(days, day, user) + entry_sum(
                entries,
                day,
                user,
            ) by {
            assert(wl_total(before, day, user) == wl_total(days, day, user) + entry_sum(
                shorter,
                day,
                user,
            ));
            if day == entry.day && user == entry.user_id.0 {
            } else {
                assert(wl_total(after, day, user) == wl_total(before, day, user));
            }
        }
        assert forall|day: Date|
            (forall|i: int|
                0 <= i < entries.len() ==> (#[trigger] entries[i]).day != day) implies value_or(
            after,
            day,
            empty,
        ) == value_or(days, day, empty) by {
            assert(entries[entries.len() - 1].day != day);
            assert forall|i: int| 0 <= i < shorter.len() implies (#[trigger] shorter[i]).day
                != day by {
                assert(shorter[i] == entries[i]);
            }
            assert(value_or(after, day, empty) == value_or(before, day, empty));
        }
    }
}

/// Whether `days` holds a row for `user` on `day`.
pub open spec fn row_exists(days: Seq<(Date, Seq<(u128, i64)>)>, day: Date, user: u128) -> bool {
    has_key(value_or(days, day, Seq::<(u128, i64)>::empty()), user)
}

/// Whether an entry of `entries` is for `user` on `day`.
pub open spec fn names_row(entries: Seq<LedgerEntry>, day: Date, user: u128) -> bool {
    exists|i: int|
        0 <= i < entries.len() && (#[trigger] entries[i]).day == day && entries[i].user_id.0
            == user
}

/// Merging one amount makes a row for its user and day where there was
/// none, and neither makes nor takes away any other row.
pub proof fn lemma_tallied_rows(
    days: Seq<(Date, Seq<(u128, i64)>)>,
    day: Date,
    user: u128,
    amount: int,
)
    requires
        well_keyed(days),
    ensures
        forall|any_day: Date, any: u128| #[trigger]
            row_exists(tallied(days, day, user, amount), any_day, any) <==> row_exists(
                days,
                any_day,
                any,
            ) || (any_day == day && any == user),
{
    let empty = Seq::<(u128, i64)>::empty();
    let totals = value_or(days, day, empty);
    let sum = (value_or(totals, user, 0i64) + amount) as i64;
    let new_totals = put(totals, user, sum);
    let after = tallied(days, day, user, amount);
    if has_key(days, day) {
        lemma_place_holds_key(days, day);
    }
    assert(distinct_keys(totals));
    lemma_put(totals, user, sum);
    lemma_put(days, day, new_totals);
    assert(after == put(days, day, new_totals));
    assert(value_or(after, day, empty) == new_totals);
    assert forall|any_day: Date, any: u128| #[trigger]
        row_exists(after, any_day, any) <==> row_exists(days, any_day, any) || (any_day == day
            && any == user) by {
        if any_day != day {
            assert(value_or(after, any_day, empty) == value_or(days, any_day, empty));
        } else if any != user {
            assert(has_key(new_totals, any) == has_key(totals, any));
        }
    }
}

/// Merging entries makes a row for every user and day that an entry is
/// for, and neither makes nor takes away any other row.
pub proof fn lemma_merged_rows(days: Seq<(Date, Seq<(u128, i64)>)>, entries: Seq<LedgerEntry>)
    requires
        well_keyed(days),
        merged(days, entries) is Some,
    ensures
        forall|day: Date, user: u128| #[trigger]
            row_exists(merged(days, entries)->0, day, user) <==> row_exists(days, day, user)
                || names_row(entries, day, user),
    decreases entries.len(),
{
    if entries.len() > 0 {
        let shorter = entries.drop_last();
        let before = merged(days, shorter)->0;
        let entry = entries.last();
        let after = merged(days, entries)->0;
        lemma_merged_rows(days, shorter);
        lemma_merged_totals(days, shorter);
        lemma_tallied_rows(before, entry.day, entry.user_id.0, entry.amount as int);
        assert forall|day: Date, user: u128| #[trigger]
            row_exists(after, day, user) <==> row_exists(days, day, user) || names_row(
                entries,
                day,
                user,
            ) by {
            if names_row(shorter, day, user) {
                let i = choose|i: int|
                    0 <= i < shorter.len() && (#[trigger] shorter[i]).day == day
                        && shorter[i].user_id.0 == user;
                assert(entries[i].day == day && entries[i].user_id.0 == user);
            }
            if entry.day == day && entry.user_id.0 == user {
                assert(entries[entries.len() - 1] == entry);
            }
            if names_row(entries, day, user) {
                let i = choose|i: int|
                    0 <= i < entries.len() && (#[trigger] entries[i]).day == day
                        && entries[i].user_id.0 == user;
                if i < shorter.len() {
                    assert(shorter[i].day == day && shorter[i].user_id.0 == user);
                }
            }
        }
    }
}

/// Merging is additive: merging an amount, and then another for the same
/// user and day, leaves what merging their sum leaves.
pub proof fn lemma_merge_is_additive(
    days: Seq<(Date, Seq<(u128, i64)>)>,
    day: Date,
    user: u128,
    first: int,
    second: int,
)
    requires
        well_keyed(days),
        fits_i64(wl_total(days, day, user) + first),
        fits_i64(wl_total(days, day, user) + first + second),
    ensures
        forall|any_day: Date, any: u128| #[trigger]
            wl_total(tallied(tallied(days, day, user, first), day, user, second), any_day, any)
                == wl_total(tallied(days, day, user, first + second), any_day, any),
        wl_total(tallied(tallied(days, day, user, first), day, user, second), day, user)
            == wl_total(days, day, user) + first + second,
{
    lemma_tallied(days, day, user, first);
    lemma_tallied(tallied(days, day, user, first), day, user, second);
    lemma_tallied(days, day, user, first + second);
}

/// Merging commutes: two amounts leave the same ledger amounts behind in
/// whichever order they are merged.
pub proof fn lemma_merge_commutes(
    days: Seq<(Date, Seq<(u128, i64)>)>,
    day_a: Date,
    user_a: u128,
    a: int,
    day_b: Date,
    user_b: u128,
    b: int,
)
    requires
        well_keyed(days),
        fits_i64(wl_total(days, day_a, user_a) + a),
        fits_i64(wl_total(days, day_b, user_b) + b),
        day_a == day_b && user_a == user_b ==> fits_i64(wl_total(days, day_a, user_a) + a + b),
    ensures
        forall|any_day: Date, any: u128| #[trigger]
            wl_total(
                tallied(tallied(days, day_a, user_a, a), day_b, user_b, b),
                any_day,
                any,
            ) == wl_total(
                tallied(tallied(days, day_b, user_b, b), day_a, user_a, a),
                any_day,
                any,
            ),
{
    lemma_tallied(days, day_a, user_a, a);
    lemma_tallied(days, day_b, user_b, b);
    lemma_tallied(tallied(days, day_a, user_a, a), day_b, user_b, b);
    lemma_tallied(tallied(days, day_b, user_b, b), day_a, user_a, a);
}

/// The newest day of `days` that lies in the month of `month`, if there
/// is one.
pub open spec fn newest_in_month(days: Seq<(Date, Seq<(u128, i64)>)>, month: Date) -> Option<
    Date,
>
    decreases days.len(),
{
    if days.len() == 0 {
        None
    } else {
        let before = newest_in_month(days.drop_last(), month);
        let day = days.last().0;
        if day.same_month(month) && (before is None || before->0.before(day)) {
            Some(day)
        } else {
            before
        }
    }
}

/// The newest day of a month is a day of the ledger in that month, and no
/// day of the ledger in that month lies after it; a month has none only
/// where the ledger holds no day of it.
pub proof fn lemma_newest_in_month(days: Seq<(Date, Seq<(u128, i64)>)>, month: Date)
    ensures
        newest_in_month(days, month) is None <==> forall|i: int|
            0 <= i < days.len() ==> !(#[trigger] days[i]).0.same_month(month),
        newest_in_month(days, month) matches Some(day) ==> day.same_month(month) && has_key(
            days,
            day,
        ) && forall|i: int|
            0 <= i < days.len() && (#[trigger] days[i]).0.same_month(month) ==> days[i].0.not_after(
                day,
            ),
    decreases days.len(),
{
    if days.len() > 0 {
        let shorter = days.drop_last();
        let before = newest_in_month(shorter, month);
        let last = days.last().0;
        lemma_newest_in_month(shorter, month);
        assert forall|i: int| 0 <= i < shorter.len() implies shorter[i] == days[i] by {}
        match newest_in_month(days, month) {
            Some(day) => {
                if day == last && last.same_month(month) && (before is None || before->0.before(
                    last,
                )) {
                    assert(days[days.len() - 1].0 == day);
                    assert forall|i: int|
                        0 <= i < days.len() && (#[trigger] days[i]).0.same_month(
                            month,
                        ) implies days[i].0.not_after(day) by {
                        if i < shorter.len() {
                            assert(shorter[i].0.same_month(month));
                            lemma_before_is_total_order(days[i].0, before->0, day);
                        }
                    }
                } else {
                    assert(before == Some(day));
                    let at = place_of(shorter, day);
                    assert(days[at].0 == day);
                    assert forall|i: int|
                        0 <= i < days.len() && (#[trigger] days[i]).0.same_month(
                            month,
                        ) implies days[i].0.not_after(day) by {
                        if i < shorter.len() {
                            assert(shorter[i].0.same_month(month));
                        } else {
                            lemma_before_is_total_order(last, day, day);
                        }
                    }
                }
            },
            None => {
                assert forall|i: int| 0 <= i < days.len() implies !(#[trigger] days[i]).0.same_month(
                    month,
                ) by {
                    if i < shorter.len() {
                        assert(!shorter[i].0.same_month(month));
                    }
                }
            },
        }
        if newest_in_month(days, month) is Some {
            let day = newest_in_month(days, month)->0;
            let at = place_of(days, day);
            assert(days[at].0.same_month(month));
        }
    }
}

/// The rows that `days` holds on `day` for the users `users`: for every
/// user with a row, in the order of `users`, the user's amount.
pub open spec fn entries_at(days: Seq<(Date, Seq<(u128, i64)>)>, day: Date, users: Seq<UserID>) -> Seq<
    LedgerEntry,
>
    decreases users.len(),
{
    if users.len() == 0 {
        Seq::empty()
    } else {
        let before = entries_at(days, day, users.drop_last());
        let user = users.last();
        let totals = value_or(days, day, Seq::<(u128, i64)>::empty());
        if has_key(totals, user.0) {
            before.push(LedgerEntry { user_id: user, day, amount: value_or(totals, user.0, 0i64) })
        } else {
            before
        }
    }
}

/// Whether a row of `day` is touched by an update of the partition of
/// `month` from `from` on: the day lies in the month, and not before
/// `from`.
pub open spec fn in_reach(day: Date, month: Date, from: Date) -> bool {
    day.same_month(month) && !day.before(from)
}

/// The totals of one day after the amounts of an update were added to
/// the rows of their users, in turn. A user without a row gets none;
/// `None` where an amount leaves the range of a 64-bit amount.
pub open spec fn shifted_totals(totals: Seq<(u128, i64)>, amounts: Seq<(UserID, i64)>) -> Option<
    Seq<(u128, i64)>,
>
    decreases amounts.len(),
{
    if amounts.len() == 0 {
        Some(totals)
    } else {
        match shifted_totals(totals, amounts.drop_last()) {
            None => None,
            Some(before) => {
                let (user, amount) = amounts.last();
                if !has_key(before, user.0) {
                    Some(before)
                } else if fits_i64(value_or(before, user.0, 0i64) + amount) {
                    Some(put(before, user.0, (value_or(before, user.0, 0i64) + amount) as i64))
                } else {
                    None
                }
            },
        }
    }
}

/// Whether the update can be made on every day within its reach.
pub open spec fn can_shift(
    days: Seq<(Date, Seq<(u128, i64)>)>,
    month: Date,
    from: Date,
    amounts: Seq<(UserID, i64)>,
) -> bool {
    forall|i: int|
        0 <= i < days.len() && in_reach((#[trigger] days[i]).0, month, from) ==> shifted_totals(
            days[i].1,
            amounts,
        ) is Some
}

/// `days` after an update: on every day within reach the amounts are
/// added to the rows of their users; every other day stays as it is.
pub open spec fn shifted(
    days: Seq<(Date, Seq<(u128, i64)>)>,
    month: Date,
    from: Date,
    amounts: Seq<(UserID, i64)>,
) -> Seq<(Date, Seq<(u128, i64)>)> {
    Seq::new(
        days.len(),
        |i: int|
            if in_reach(days[i].0, month, from) {
                (days[i].0, shifted_totals(days[i].1, amounts)->0)
            } else {
                days[i]
            },
    )
}

/// Where adding a part of the amounts leaves the range of amounts, adding
/// all of them does.
pub proof fn lemma_shift_failure_stays(
    totals: Seq<(u128, i64)>,
    amounts: Seq<(UserID, i64)>,
    part: int,
)
    requires
        0 <= part <= amounts.len(),
    ensures
        shifted_totals(totals, amounts.take(part)) is None ==> shifted_totals(totals, amounts)
            is None,
    decreases amounts.len() - part,
{
    if part < amounts.len() {
        assert(amounts.take(part + 1).drop_last() =~= amounts.take(part));
        lemma_shift_failure_stays(totals, amounts, part + 1);
    } else {
        assert(amounts.take(part) =~= amounts);
    }
}

/// A ledger held in memory: one amount per user and day.
pub struct Ledger {
    rows: KeyedList<Date, KeyedList<u128, i64>>,
}

impl Ledger {
    /// The amounts, by day and user, in the order in which days and users
    /// first came.
    pub closed spec fn days(self) -> Seq<(Date, Seq<(u128, i64)>)> {
        nested(self.rows)
    }

    /// Whether no day and no user of a day stands at two places. Every
    /// ledger that this type's functions build is valid.
    pub closed spec fn is_valid(self) -> bool {
        all_valid(self.rows)
    }

    /// The amount that the ledger holds for `user_id` and `day`; nothing
    /// where it holds no row.
    pub open spec fn amount(self, user_id: UserID, day: Date) -> int {
        wl_total(self.days(), day, user_id.0)
    }

    /// Whether the ledger holds a row for `user_id` and `day`.
    pub open spec fn has_row(self, user_id: UserID, day: Date) -> bool {
        row_exists(self.days(), day, user_id.0)
    }

    /// A valid ledger is well keyed.
    pub proof fn lemma_valid_is_well_keyed(self)
        requires
            self.is_valid(),
        ensures
            well_keyed(self.days()),
    {
        lemma_nested(self.rows);
        assert forall|i: int| 0 <= i < self.days().len() implies distinct_keys(
            (#[trigger] self.days()[i]).1,
        ) by {
            assert(self.rows.entries()[i].1.is_valid());
        }
    }

    /// A ledger without rows.
    pub fn new() -> (ledger: Ledger)
        ensures
            ledger.is_valid(),
            ledger.days() == Seq::<(Date, Seq<(u128, i64)>)>::empty(),
    {
        let ledger = Ledger { rows: KeyedList::new() };
        assert(ledger.days() =~= Seq::<(Date, Seq<(u128, i64)>)>::empty());
        ledger
    }

    /// Merges `entries` into the ledger, in turn: every amount is added
    /// to what the ledger holds for its user and day. An amount that
    /// leaves the range of a 64-bit amount is an error.
    pub fn merge_upsert(&mut self, entries: &Vec<LedgerEntry>) -> (result: Result<
        (),
        ArchiveError,
    >)
        requires
            old(self).is_valid(),
        ensures
            final(self).is_valid(),
            match merged(old(self).days(), entries@) {
                Some(after) => result is Ok && final(self).days() == after,
                None => result matches Err(e) && e == ArchiveError::AmountOverflow,
            },
    {
        let mut i: usize = 0;
        proof {
            assert(entries@.take(0) =~= Seq::<LedgerEntry>::empty());
        }
        while i < entries.len()
            invariant
                i <= entries@.len(),
                self.is_valid(),
                merged(old(self).days(), entries@.take(i as int)) == Some(self.days()),
            decreases entries@.len() - i,
        {
            let entry = entries[i];
            proof {
                assert(entries@.take(i + 1).drop_last() =~= entries@.take(i as int));
                assert(entries@.take(i + 1).last() == entries@[i as int]);
                lemma_merge_failure_stays(old(self).days(), entries@, i + 1);
            }
            tally_win_loss(&mut self.rows, entry.day, entry.user_id, entry.amount)?;
            i += 1;
        }
        proof {
            assert(entries@.take(i as int) =~= entries@);
        }
        Ok(())
    }

    /// The amount that the ledger holds for `user_id` and `day`, if it
    /// holds a row for them.
    pub fn get(&self, user_id: UserID, day: Date) -> (amount: Option<i64>)
        requires
            self.is_valid(),
        ensures
            amount is Some <==> self.has_row(user_id, day),
            amount matches Some(held) ==> held == self.amount(user_id, day),
    {
        proof {
            lemma_nested(self.rows);
        }
        match self.rows.find(&day) {
            Some(place) => {
                let totals = self.rows.value_at(place);
                assert(nested(self.rows)[place as int].1 == totals.entries());
                match totals.find(&user_id.0) {
                    Some(at) => Some(*totals.value_at(at)),
                    None => None,
                }
            },
            None => None,
        }
    }

    /// Adds amounts to the rows of their users on every day of the month
    /// of `month` from `from` on. No row is made: a user without a row on
    /// a day stays without. An amount that leaves the range of a 64-bit
    /// amount is an error, which may leave a part of the update made.
    pub fn update_opening_balance_amount(
        &mut self,
        month: Date,
        from: Date,
        update_map: &Vec<(UserID, i64)>,
    ) -> (result: Result<(), ArchiveError>)
        requires
            old(self).is_valid(),
        ensures
            final(self).is_valid(),
            can_shift(old(self).days(), month, from, update_map@) ==> {
                &&& result is Ok
                &&& final(self).days() == shifted(old(self).days(), month, from, update_map@)
            },
            !can_shift(old(self).days(), month, from, update_map@) ==> (result matches Err(e) && e
                == ArchiveError::AmountOverflow),
    {
        let mut d: usize = 0;
        proof {
            lemma_nested(self.rows);
        }
        while d < self.rows.len()
            invariant
                d <= self.days().len(),
                self.is_valid(),
                self.days().len() == old(self).days().len(),
                forall|i: int|
                    0 <= i < d && in_reach((#[trigger] old(self).days()[i]).0, month, from)
                        ==> shifted_totals(old(self).days()[i].1, update_map@) is Some,
                forall|i: int|
                    0 <= i < d ==> (#[trigger] self.days()[i]) == shifted(
                        old(self).days(),
                        month,
                        from,
                        update_map@,
                    )[i],
                forall|i: int|
                    d <= i < self.days().len() ==> (#[trigger] self.days()[i]) == old(self).days()[i],
            decreases self.days().len() - d,
        {
            let day = self.rows.key_at(d);
            let ghost before = *self;
            proof {
                lemma_nested(self.rows);
                assert(self.days()[d as int].0 == day);
            }
            let year: i32 = day.get_year();
            let month_of_day: u8 = day.get_month();
            if year == month.get_year() && month_of_day == month.get_month() && !day.is_before(
                &from,
            ) {
                let totals = self.rows.value_at_mut(d);
                let shift = shift_totals(totals, update_map);
                proof {
                    crate::keyed::lemma_nested_replaced(before.rows, self.rows, d as int);
                    assert(before.days()[d as int] == old(self).days()[d as int]);
                }
                match shift {
                    Ok(_) => {},
                    Err(failure) => {
                        return Err(failure);
                    },
                }
            }
            proof {
                lemma_nested(self.rows);
                if in_reach(day, month, from) {
                    crate::keyed::lemma_nested_replaced(before.rows, self.rows, d as int);
                }
                assert forall|i: int| 0 <= i < self.days().len() && i != d implies (
                #[trigger] self.days()[i]) == before.days()[i] by {
                    assert(self.rows.entries()[i] == before.rows.entries()[i]);
                }
            }
            d += 1;
        }
        proof {
            assert(self.days() =~= shifted(old(self).days(), month, from, update_map@));
        }
        Ok(())
    }

    /// The rows that the ledger holds on `day` for the users `user_ids`.
    pub fn get_entries(&self, day: Date, user_ids: &Vec<UserID>) -> (entries: Vec<LedgerEntry>)
        requires
            self.is_valid(),
        ensures
            entries@ == entries_at(self.days(), day, user_ids@),
    {
        let mut entries: Vec<LedgerEntry> = Vec::new();
        let mut i: usize = 0;
        proof {
            assert(user_ids@.take(0) =~= Seq::<UserID>::empty());
        }
        while i < user_ids.len()
            invariant
                i <= user_ids@.len(),
                self.is_valid(),
                entries@ == entries_at(self.days(), day, user_ids@.take(i as int)),
            decreases user_ids@.len() - i,
        {
            let user_id = user_ids[i];
            proof {
                assert(user_ids@.take(i + 1).drop_last() =~= user_ids@.take(i as int));
                assert(user_ids@.take(i + 1).last() == user_ids@[i as int]);
            }
            match self.get(user_id, day) {
                Some(amount) => {
                    entries.push(LedgerEntry { user_id, day, amount });
                },
                None => {},
            }
            i += 1;
        }
        proof {
            assert(user_ids@.take(i as int) =~= user_ids@);
        }
        entries
    }

    /// The day of the newest row among the days of the month of `month`;
    /// `None` where the ledger holds no day of that month.
    pub fn get_latest_checkpoint(&self, month: Date) -> (newest: Option<Date>)
        requires
            self.is_valid(),
        ensures
            newest == newest_in_month(self.days(), month),
    {
        let mut newest: Option<Date> = None;
        let mut i: usize = 0;
        proof {
            assert(self.days().take(0) =~= Seq::<(Date, Seq<(u128, i64)>)>::empty());
        }
        while i < self.rows.len()
            invariant
                i <= self.days().len(),
                self.days().len() == self.rows.entries().len(),
                newest == newest_in_month(self.days().take(i as int), month),
            decreases self.days().len() - i,
        {
            let day = self.rows.key_at(i);
            proof {
                assert(self.days()[i as int].0 == day);
                assert(self.days().take(i + 1).drop_last() =~= self.days().take(i as int));
                assert(self.days().take(i + 1).last() == self.days()[i as int]);
            }
            let year: i32 = day.get_year();
            let month_of_day: u8 = day.get_month();
            if year == month.get_year() && month_of_day == month.get_month() {
                match newest {
                    Some(held) => {
                        if held.is_before(&day) {
                            newest = Some(day);
                        }
                    },
                    None => {
                        newest = Some(day);
                    },
                }
            }
            i += 1;
        }
        proof {
            assert(self.days().take(i as int) =~= self.days());
        }
        newest
    }
}

/// Adds the amounts of an update to the rows of their users on one day.
fn shift_totals(totals: &mut KeyedList<u128, i64>, update_map: &Vec<(UserID, i64)>) -> (result:
    Result<(), ArchiveError>)
    requires
        old(totals).is_valid(),
    ensures
        final(totals).is_valid(),
        match shifted_totals(old(totals).entries(), update_map@) {
            Some(after) => result is Ok && final(totals).entries() == after,
            None => result matches Err(e) && e == ArchiveError::AmountOverflow,
        },
{
    let mut a: usize = 0;
    proof {
        assert(update_map@.take(0) =~= Seq::<(UserID, i64)>::empty());
    }
    while a < update_map.len()
        invariant
            a <= update_map@.len(),
            totals.is_valid(),
            shifted_totals(old(totals).entries(), update_map@.take(a as int)) == Some(
                totals.entries(),
            ),
        decreases update_map@.len() - a,
    {
        let (user, amount) = update_map[a];
        proof {
            assert(update_map@.take(a + 1).drop_last() =~= update_map@.take(a as int));
            assert(update_map@.take(a + 1).last() == update_map@[a as int]);
            lemma_shift_failure_stays(old(totals).entries(), update_map@, a + 1);
        }
        match totals.find(&user.0) {
            Some(at) => {
                let held: i64 = *totals.value_at(at);
                match held.checked_add(amount) {
                    Some(sum) => {
                        totals.set_value(at, sum);
                    },
                    None => {
                        return Err(ArchiveError::AmountOverflow);
                    },
                }
            },
            None => {},
        }
        a += 1;
    }
    proof {
        assert(update_map@.take(a as int) =~= update_map@);
    }
    Ok(())
}

/// Where merging a part of some entries leaves the range of amounts,
/// merging all of them does.
pub proof fn lemma_merge_failure_stays(
    days: Seq<(Date, Seq<(u128, i64)>)>,
    entries: Seq<LedgerEntry>,
    part: int,
)
    requires
        0 <= part <= entries.len(),
    ensures
        merged(days, entries.take(part)) is None ==> merged(days, entries) is None,
    decreases entries.len() - part,
{
    if part < entries.len() {
        assert(entries.take(part + 1).drop_last() =~= entries.take(part));
        lemma_merge_failure_stays(days, entries, part + 1);
    } else {
        assert(entries.take(part) =~= entries);
    }
}

} // verus!
