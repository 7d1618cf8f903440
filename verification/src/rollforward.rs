//! The roll-forward of a ledger held in memory, from the search for the
//! last checkpoint to the rows of tomorrow.

use crate::calendar::{
    get_hong_kong_11_hours_from_date, lemma_before_is_total_order, lemma_next_exists,
    lemma_next_is_later, lemma_next_is_successor, month_index, month_subtracted, Date,
    Timestamp,
};
use crate::error::ArchiveError;
use crate::keyed::{has_key, lemma_place_holds_key, place_of, put, value_or};
use crate::ledger::{
    entries_at, entry_sum, lemma_merged_rows, lemma_merged_totals, lemma_newest_in_month, merged,
    names_row, newest_in_month, row_exists, well_keyed, Ledger, LedgerEntry,
};
use crate::opening_balance::{
    above_floor, are_pending_days, carries_forward, checkpoint_answered, checkpoint_probe,
    credit_registered, is_current, lemma_plus_days_increasing, pending_days, register_players,
    roll_page_forward, rolls_forward, CheckpointSearch, FLOOR_YEAR, PLAYERS_PAGE_SIZE,
};
use crate::records::{OpeningBalance, UserInfo};
use crate::settlement::wl_total;
use crate::state::State;
use crate::types::UserID;
use vstd::prelude::*;

verus! {

/// The last checkpoint that the search finds when it starts at `month`:
/// the newest day of the first month, going back from `month`, of which
/// the ledger holds a day. `None` where the search comes to the floor
/// first.
pub open spec fn last_checkpoint(days: Seq<(Date, Seq<(u128, i64)>)>, month: Date) -> Option<
    Date,
>
    decreases month_index(month) - 12 * FLOOR_YEAR,
    via last_checkpoint_decreases
{
    if !month.is_valid() || !above_floor(month) {
        None
    } else {
        match newest_in_month(days, month) {
            Some(day) => Some(day),
            None => last_checkpoint(days, month_subtracted(month)),
        }
    }
}

#[via_fn]
proof fn last_checkpoint_decreases(days: Seq<(Date, Seq<(u128, i64)>)>, month: Date) {
    if month.is_valid() && above_floor(month) {
        if month.month() == 1 {
            Date::lemma_of_components(month.year() - 1, 12, 1);
        } else {
            Date::lemma_of_components(month.year(), month.month() - 1, 1);
        }
    }
}

/// Finds the last checkpoint of a ledger: the newest day of the first
/// month, going back from the month of `today`, of which the ledger holds
/// a day. A search that comes to the floor year is an error.
pub fn find_last_opening_balance_record(ledger: &Ledger, today: Date) -> (result: Result<
    Date,
    ArchiveError,
>)
    requires
        ledger.is_valid(),
    ensures
        match last_checkpoint(ledger.days(), today.month_start()) {
            Some(checkpoint) => result == Ok::<Date, ArchiveError>(checkpoint),
            None => result matches Err(e) && e == ArchiveError::NoOpeningBalance,
        },
{
    let mut current_date = today.first_of_month();
    loop
        invariant
            ledger.is_valid(),
            current_date.is_valid(),
            last_checkpoint(ledger.days(), today.month_start()) == last_checkpoint(
                ledger.days(),
                current_date,
            ),
        decreases month_index(current_date) - 12 * FLOOR_YEAR,
    {
        match checkpoint_probe(current_date) {
            Ok(_) => {},
            Err(failure) => {
                return Err(failure);
            },
        }
        match checkpoint_answered(current_date, ledger.get_latest_checkpoint(current_date)) {
            CheckpointSearch::Found(checkpoint) => {
                return Ok(checkpoint);
            },
            CheckpointSearch::Probe(earlier) => {
                current_date = earlier;
            },
        }
    }
}

/// The rows of a ledger as entries: user, day of the checkpoint and
/// amount.
pub open spec fn entries_of(rows: Seq<OpeningBalance>) -> Seq<LedgerEntry> {
    Seq::new(
        rows.len(),
        |i: int|
            LedgerEntry {
                user_id: rows[i].user_id,
                day: rows[i].creation_date.date(),
                amount: rows[i].amount,
            },
    )
}

/// Whether `rows` holds `entries` as rows: row for row the same user and
/// amount, with the entry's day as the checkpoint.
pub open spec fn are_rows_of(rows: Seq<OpeningBalance>, entries: Seq<LedgerEntry>) -> bool {
    &&& rows.len() == entries.len()
    &&& forall|i: int|
        0 <= i < entries.len() ==> (#[trigger] rows[i]).user_id == entries[i].user_id
            && rows[i].amount == entries[i].amount && rows[i].creation_date
            == Timestamp::cutoff_on(entries[i].day)
}

/// `entries` with `day` in place of their days.
pub open spec fn carried(entries: Seq<LedgerEntry>, day: Date) -> Seq<LedgerEntry> {
    Seq::new(
        entries.len(),
        |i: int| LedgerEntry { user_id: entries[i].user_id, day, amount: entries[i].amount },
    )
}

/// `days` after `records` were merged in once for every day of
/// `pending`, in turn, each time with that day as their day.
pub open spec fn rolled_days(
    days: Seq<(Date, Seq<(u128, i64)>)>,
    records: Seq<LedgerEntry>,
    pending: Seq<Date>,
) -> Option<Seq<(Date, Seq<(u128, i64)>)>>
    decreases pending.len(),
{
    if pending.len() == 0 {
        Some(days)
    } else {
        match rolled_days(days, records, pending.drop_last()) {
            None => None,
            Some(before) => merged(before, carried(records, pending.last())),
        }
    }
}

/// The identities of some players, in their order.
pub open spec fn ids_of_players(players: Seq<UserInfo>) -> Seq<UserID> {
    Seq::new(players.len(), |i: int| players[i].user_id)
}

/// The first page of `players`: all of them where they are fewer than a
/// page holds.
pub open spec fn first_page(players: Seq<UserInfo>) -> Seq<UserInfo> {
    if players.len() < PLAYERS_PAGE_SIZE {
        players
    } else {
        players.take(PLAYERS_PAGE_SIZE as int)
    }
}

/// `days` after the players were rolled forward, page by page: for every
/// page, the rows that the ledger holds for the page's players on `last`
/// are merged in once for every day of `pending`. A page that is not full
/// is the last.
pub open spec fn rolled_pages(
    days: Seq<(Date, Seq<(u128, i64)>)>,
    players: Seq<UserInfo>,
    last: Date,
    pending: Seq<Date>,
) -> Option<Seq<(Date, Seq<(u128, i64)>)>>
    decreases players.len(),
{
    match rolled_days(days, entries_at(days, last, ids_of_players(first_page(players))), pending) {
        None => None,
        Some(after) => if players.len() < PLAYERS_PAGE_SIZE {
            Some(after)
        } else {
            rolled_pages(after, players.skip(PLAYERS_PAGE_SIZE as int), last, pending)
        },
    }
}

/// Where rolling through a part of the pending days leaves the range of
/// amounts, rolling through all of them does.
pub proof fn lemma_rolling_failure_stays(
    days: Seq<(Date, Seq<(u128, i64)>)>,
    records: Seq<LedgerEntry>,
    pending: Seq<Date>,
    part: int,
)
    requires
        0 <= part <= pending.len(),
    ensures
        rolled_days(days, records, pending.take(part)) is None ==> rolled_days(
            days,
            records,
            pending,
        ) is None,
    decreases pending.len() - part,
{
    if part < pending.len() {
        assert(pending.take(part + 1).drop_last() =~= pending.take(part));
        lemma_rolling_failure_stays(days, records, pending, part + 1);
    } else {
        assert(pending.take(part) =~= pending);
    }
}

/// Registering the credit players of two lists, one after the other, is
/// registering those of the joined list.
pub proof fn lemma_credit_registered_joined(
    credit_players: Map<u128, bool>,
    first: Seq<UserInfo>,
    second: Seq<UserInfo>,
)
    ensures
        credit_registered(credit_registered(credit_players, first), second) == credit_registered(
            credit_players,
            first + second,
        ),
    decreases second.len(),
{
    if second.len() == 0 {
        assert(first + second =~= first);
    } else {
        lemma_credit_registered_joined(credit_players, first, second.drop_last());
        assert((first + second).drop_last() =~= first + second.drop_last());
        assert((first + second).last() == second.last());
    }
}

impl Ledger {
    /// The rows that the ledger holds on `date` for the users `user_ids`.
    /// A ledger in memory keeps no identities of rows: those of the rows
    /// that come back say nothing.
    pub fn get_opening_balance_records(&self, date: Date, user_ids: &Vec<UserID>) -> (records:
        Vec<OpeningBalance>)
        requires
            self.is_valid(),
        ensures
            are_rows_of(records@, entries_at(self.days(), date, user_ids@)),
    {
        let entries = self.get_entries(date, user_ids);
        let mut records: Vec<OpeningBalance> = Vec::new();
        let mut i: usize = 0;
        while i < entries.len()
            invariant
                i <= entries@.len(),
                are_rows_of(records@, entries@.take(i as int)),
            decreases entries@.len() - i,
        {
            let entry = entries[i];
            records.push(
                OpeningBalance {
                    id: 0,
                    amount: entry.amount,
                    creation_date: get_hong_kong_11_hours_from_date(entry.day),
                    user_id: entry.user_id,
                },
            );
            i += 1;
        }
        proof {
            assert(entries@.take(i as int) =~= entries@);
        }
        records
    }

    /// Merges rows into the ledger: every amount is added to what the
    /// ledger holds for the row's user on the day of the row's
    /// checkpoint.
    pub fn insert_opening_balance_records(&mut self, records: &Vec<OpeningBalance>) -> (result:
        Result<(), ArchiveError>)
        requires
            old(self).is_valid(),
        ensures
            final(self).is_valid(),
            match merged(old(self).days(), entries_of(records@)) {
                Some(after) => result is Ok && final(self).days() == after,
                None => result matches Err(e) && e == ArchiveError::AmountOverflow,
            },
    {
        let mut entries: Vec<LedgerEntry> = Vec::new();
        let mut i: usize = 0;
        while i < records.len()
            invariant
                i <= records@.len(),
                entries@ == entries_of(records@.take(i as int)),
            decreases records@.len() - i,
        {
            let record = &records[i];
            entries.push(
                LedgerEntry {
                    user_id: record.user_id,
                    day: record.creation_date.get_date(),
                    amount: record.amount,
                },
            );
            i += 1;
            proof {
                assert(entries@ =~= entries_of(records@.take(i as int)));
            }
        }
        proof {
            assert(records@.take(i as int) =~= records@);
        }
        self.merge_upsert(&entries)
    }
}

/// One page of players: those from `from` up to, but without, `to`.
fn page_of(players: &Vec<UserInfo>, from: usize, to: usize) -> (page: Vec<UserInfo>)
    requires
        from <= to <= players@.len(),
    ensures
        page@ == players@.subrange(from as int, to as int),
{
    let mut page: Vec<UserInfo> = Vec::new();
    let mut i: usize = from;
    while i < to
        invariant
            from <= i <= to,
            to <= players@.len(),
            page@ == players@.subrange(from as int, i as int),
        decreases to - i,
    {
        page.push(players[i]);
        i += 1;
        proof {
            assert(page@ =~= players@.subrange(from as int, i as int));
        }
    }
    page
}

/// Merges the rows of every pending day of a page into the ledger.
fn roll_page_into(
    ledger: &mut Ledger,
    records: &Vec<OpeningBalance>,
    entries: Ghost<Seq<LedgerEntry>>,
    last: Date,
    tomorrow: Date,
    pending: Ghost<Seq<Date>>,
) -> (result: Result<(), ArchiveError>)
    requires
        old(ledger).is_valid(),
        are_rows_of(records@, entries@),
        are_pending_days(pending@, last, tomorrow),
    ensures
        final(ledger).is_valid(),
        match rolled_days(old(ledger).days(), entries@, pending@) {
            Some(after) => result is Ok && final(ledger).days() == after,
            None => result matches Err(e) && e == ArchiveError::AmountOverflow,
        },
{
    let plan = roll_page_forward(records, last, tomorrow);
    let ghost planned = Seq::new(plan@.len(), |k: int| plan@[k].day);
    proof {
        lemma_pending_days_are_unique(planned, pending@, last, tomorrow);
        assert(pending@.take(0) =~= Seq::<Date>::empty());
    }
    let mut k: usize = 0;
    while k < plan.len()
        invariant
            k <= plan@.len(),
            ledger.is_valid(),
            are_rows_of(records@, entries@),
            rolls_forward(plan@, records@, last, tomorrow),
            pending@ == Seq::new(plan@.len(), |k: int| plan@[k].day),
            rolled_days(old(ledger).days(), entries@, pending@.take(k as int)) == Some(
                ledger.days(),
            ),
        decreases plan@.len() - k,
    {
        let day_rows = &plan[k];
        proof {
            assert(pending@.take(k + 1).drop_last() =~= pending@.take(k as int));
            assert(pending@.take(k + 1).last() == plan@[k as int].day);
            lemma_rolling_failure_stays(old(ledger).days(), entries@, pending@, k + 1);
            let rows = day_rows.rows@;
            assert(carries_forward(rows, records@, day_rows.day));
            assert forall|i: int| 0 <= i < rows.len() implies (#[trigger] rows[i]).creation_date.date()
                == day_rows.day by {
                Timestamp::lemma_of_components(day_rows.day, 3, 0, 0, 0);
            }
            assert(entries_of(rows) =~= carried(entries@, day_rows.day));
        }
        ledger.insert_opening_balance_records(&day_rows.rows)?;
        k += 1;
    }
    proof {
        assert(pending@.take(k as int) =~= pending@);
    }
    Ok(())
}

/// The days that are pending after a checkpoint are determined: two runs
/// of days that are both pending after `last` through `tomorrow` are the
/// same run.
pub proof fn lemma_pending_days_are_unique(a: Seq<Date>, b: Seq<Date>, last: Date, tomorrow: Date)
    requires
        are_pending_days(a, last, tomorrow),
        are_pending_days(b, last, tomorrow),
    ensures
        a == b,
{
    if a.len() < b.len() {
        lemma_run_ends_once(a, b, last, tomorrow);
    } else if b.len() < a.len() {
        lemma_run_ends_once(b, a, last, tomorrow);
    }
    assert(a =~= b);
}

/// A run of pending days does not go on beyond the end of another.
proof fn lemma_run_ends_once(shorter: Seq<Date>, longer: Seq<Date>, last: Date, tomorrow: Date)
    requires
        are_pending_days(shorter, last, tomorrow),
        are_pending_days(longer, last, tomorrow),
        shorter.len() <= longer.len(),
    ensures
        shorter.len() == longer.len(),
{
    if shorter.len() < longer.len() {
        let n = shorter.len() as int;
        assert(n > 0);
        assert(shorter[n - 1] == last.plus_days(((n - 1) + 1) as nat));
        assert(longer[n - 1] == last.plus_days(((n - 1) + 1) as nat));
        assert(longer[n - 1] == tomorrow);
        assert(longer[n] == last.plus_days((n + 1) as nat));
        assert(last.plus_days((n + 1) as nat) == last.plus_days(n as nat).next());
        assert(longer[n].is_valid());
        lemma_next_is_later(tomorrow);
        assert(longer[n].not_after(tomorrow));
        lemma_before_is_total_order(tomorrow, longer[n], tomorrow);
    }
}

/// The days that are pending after `last` through `tomorrow`.
pub open spec fn days_pending(last: Date, tomorrow: Date) -> Seq<Date> {
    choose|days: Seq<Date>| are_pending_days(days, last, tomorrow)
}

/// What a roll-forward on `today` comes to: a failure, nothing to do on
/// a ledger that is current, or the ledger after the players were rolled
/// forward through tomorrow.
pub open spec fn rollforward_outcome(
    days: Seq<(Date, Seq<(u128, i64)>)>,
    players: Seq<UserInfo>,
    today: Date,
) -> Result<Option<Seq<(Date, Seq<(u128, i64)>)>>, ArchiveError> {
    match last_checkpoint(days, today.month_start()) {
        None => Err(ArchiveError::NoOpeningBalance),
        Some(last) => if !today.has_next() {
            Err(ArchiveError::DateOutOfRange)
        } else if is_current(last, today.next()) {
            Ok(None)
        } else {
            match rolled_pages(days, players, last, days_pending(last, today.next())) {
                Some(after) => Ok(Some(after)),
                None => Err(ArchiveError::AmountOverflow),
            }
        },
    }
}

/// Brings a ledger held in memory up to tomorrow.
///
/// The last checkpoint is searched for, going back from the month of
/// `today`. Where it is tomorrow, or lies after it, the ledger is current
/// and nothing happens. Else the players are taken in, page by page: the
/// credit players among them are registered, and the rows that the ledger
/// holds for the page's players on the last checkpoint are merged in once
/// for every day after it through tomorrow.
///
/// A ledger without a checkpoint above the floor is an error, and so are
/// a `today` without a tomorrow and an amount that leaves its range. Only
/// the last of the three can leave something written.
///
/// A second roll-forward on the same day finds the rows of tomorrow and
/// does nothing, on every day but the last of a month. The search for the
/// last checkpoint starts at the month of `today`: on the last day of a
/// month the rows of tomorrow lie in the month after, the search does not
/// come by them, and a second roll-forward merges the rows of tomorrow
/// once more.
pub fn create_opening_balance_records(
    ledger: &mut Ledger,
    players: &Vec<UserInfo>,
    state: &mut State,
    today: Date,
) -> (result: Result<(), ArchiveError>)
    requires
        old(ledger).is_valid(),
    ensures
        final(ledger).is_valid(),
        final(state).username_by_user_id == old(state).username_by_user_id,
        final(state).upline == old(state).upline,
        match rollforward_outcome(old(ledger).days(), players@, today) {
            Err(failure) => result matches Err(e) && e == failure,
            Ok(None) => {
                &&& result is Ok
                &&& final(ledger).days() == old(ledger).days()
                &&& final(state).credit_players == old(state).credit_players
            },
            Ok(Some(after)) => {
                &&& result is Ok
                &&& final(ledger).days() == after
                &&& final(state).credit_players@ == credit_registered(
                    old(state).credit_players@,
                    players@,
                )
            },
        },
        result matches Err(e) && e != ArchiveError::AmountOverflow ==> {
            &&& final(ledger).days() == old(ledger).days()
            &&& final(state).credit_players == old(state).credit_players
        },
{
    let last = find_last_opening_balance_record(ledger, today)?;
    let tomorrow = match today.next_day() {
        Some(tomorrow) => tomorrow,
        None => {
            return Err(ArchiveError::DateOutOfRange);
        },
    };
    let days = pending_days(last, tomorrow);
    if days.len() == 0 {
        return Ok(());
    }
    let ghost pending = days@;
    proof {
        lemma_pending_days_are_unique(pending, days_pending(last, tomorrow), last, tomorrow);
    }
    let limit: usize = PLAYERS_PAGE_SIZE as usize;
    let mut offset: usize = 0;
    proof {
        assert(players@.skip(0) =~= players@);
        assert(players@.take(0) =~= Seq::<UserInfo>::empty());
    }
    loop
        invariant
            offset <= players@.len(),
            limit == PLAYERS_PAGE_SIZE,
            ledger.is_valid(),
            are_pending_days(pending, last, tomorrow),
            pending == days_pending(last, tomorrow),
            last_checkpoint(old(ledger).days(), today.month_start()) == Some(last),
            today.has_next(),
            tomorrow == today.next(),
            !is_current(last, tomorrow),
            rolled_pages(old(ledger).days(), players@, last, pending) == rolled_pages(
                ledger.days(),
                players@.skip(offset as int),
                last,
                pending,
            ),
            state.credit_players@ == credit_registered(
                old(state).credit_players@,
                players@.take(offset as int),
            ),
            state.username_by_user_id == old(state).username_by_user_id,
            state.upline == old(state).upline,
        decreases players@.len() - offset,
    {
        let left: usize = players.len() - offset;
        let last_page = left < limit;
        let end: usize = if last_page {
            players.len()
        } else {
            offset + limit
        };
        let players_chunk = page_of(players, offset, end);
        let ghost rest = players@.skip(offset as int);
        proof {
            assert(players_chunk@ =~= first_page(rest));
            lemma_credit_registered_joined(
                old(state).credit_players@,
                players@.take(offset as int),
                players_chunk@,
            );
            assert(players@.take(offset as int) + players_chunk@ =~= players@.take(end as int));
        }
        let user_ids = register_players(&players_chunk, state);
        proof {
            assert(user_ids@ =~= ids_of_players(players_chunk@));
        }
        let opening_balance_records = ledger.get_opening_balance_records(last, &user_ids);
        let ghost entries = entries_at(ledger.days(), last, user_ids@);
        roll_page_into(
            ledger,
            &opening_balance_records,
            Ghost(entries),
            last,
            tomorrow,
            Ghost(pending),
        )?;
        if last_page {
            proof {
                assert(players@.take(end as int) =~= players@);
            }
            return Ok(());
        }
        proof {
            assert(rest.skip(PLAYERS_PAGE_SIZE as int) =~= players@.skip(end as int));
        }
        offset = end;
    }
}

/// Merging adds no day to a ledger but those of the merged entries, and
/// takes none away.
pub proof fn lemma_merged_days(days: Seq<(Date, Seq<(u128, i64)>)>, entries: Seq<LedgerEntry>)
    requires
        merged(days, entries) is Some,
    ensures
        forall|day: Date|
            has_key(merged(days, entries)->0, day) ==> has_key(days, day) || exists|i: int|
                0 <= i < entries.len() && (#[trigger] entries[i]).day == day,
        forall|day: Date| has_key(days, day) ==> has_key(merged(days, entries)->0, day),
    decreases entries.len(),
{
    if entries.len() > 0 {
        let shorter = entries.drop_last();
        let before = merged(days, shorter)->0;
        let entry = entries.last();
        let after = merged(days, entries)->0;
        lemma_merged_days(days, shorter);
        let empty = Seq::<(u128, i64)>::empty();
        let totals = value_or(before, entry.day, empty);
        let sum = (value_or(totals, entry.user_id.0, 0i64) + entry.amount) as i64;
        let new_totals = put(totals, entry.user_id.0, sum);
        assert(after == put(before, entry.day, new_totals));
        assert forall|day: Date| has_key(after, day) implies has_key(days, day) || exists|i: int|
            0 <= i < entries.len() && (#[trigger] entries[i]).day == day by {
            let at = place_of(after, day);
            if has_key(before, entry.day) {
                lemma_place_holds_key(before, entry.day);
                if at == place_of(before, entry.day) {
                    assert(entries[entries.len() - 1].day == day);
                } else {
                    assert(before[at].0 == day);
                }
            } else {
                if at < before.len() {
                    assert(before[at].0 == day);
                } else {
                    assert(entries[entries.len() - 1].day == day);
                }
            }
            if has_key(before, day) && !has_key(days, day) {
                let i = choose|i: int| 0 <= i < shorter.len() && (#[trigger] shorter[i]).day == day;
                assert(entries[i].day == day);
            }
        }
        assert forall|day: Date| has_key(days, day) implies has_key(after, day) by {
            let at = place_of(before, day);
            assert(before[at].0 == day);
            if has_key(before, entry.day) {
                lemma_place_holds_key(before, entry.day);
                assert(after[at].0 == day);
            } else {
                assert(after[at].0 == day);
            }
        }
    }
}

/// Rolling through pending days adds no day to a ledger but pending ones,
/// and takes none away.
pub proof fn lemma_rolled_days_days(
    days: Seq<(Date, Seq<(u128, i64)>)>,
    records: Seq<LedgerEntry>,
    pending: Seq<Date>,
)
    requires
        rolled_days(days, records, pending) is Some,
    ensures
        forall|day: Date|
            has_key(rolled_days(days, records, pending)->0, day) ==> has_key(days, day)
                || pending.contains(day),
        forall|day: Date| has_key(days, day) ==> has_key(rolled_days(days, records, pending)->0, day),
    decreases pending.len(),
{
    if pending.len() > 0 {
        let shorter = pending.drop_last();
        let before = rolled_days(days, records, shorter)->0;
        let after = rolled_days(days, records, pending)->0;
        lemma_rolled_days_days(days, records, shorter);
        lemma_merged_days(before, carried(records, pending.last()));
        assert forall|day: Date| has_key(after, day) implies has_key(days, day) || pending.contains(
            day,
        ) by {
            if has_key(before, day) {
                if shorter.contains(day) {
                    let i = choose|i: int| 0 <= i < shorter.len() && shorter[i] == day;
                    assert(pending[i] == day);
                }
            } else {
                assert(pending[pending.len() - 1] == day);
            }
        }
    }
}

/// Rolling the players forward adds no day to a ledger but pending ones,
/// and takes none away.
pub proof fn lemma_rolled_pages_days(
    days: Seq<(Date, Seq<(u128, i64)>)>,
    players: Seq<UserInfo>,
    last: Date,
    pending: Seq<Date>,
)
    requires
        rolled_pages(days, players, last, pending) is Some,
    ensures
        forall|day: Date|
            has_key(rolled_pages(days, players, last, pending)->0, day) ==> has_key(days, day)
                || pending.contains(day),
        forall|day: Date|
            has_key(days, day) ==> has_key(rolled_pages(days, players, last, pending)->0, day),
    decreases players.len(),
{
    let records = entries_at(days, last, ids_of_players(first_page(players)));
    let after = rolled_days(days, records, pending)->0;
    lemma_rolled_days_days(days, records, pending);
    if players.len() >= PLAYERS_PAGE_SIZE {
        lemma_rolled_pages_days(after, players.skip(PLAYERS_PAGE_SIZE as int), last, pending);
    }
}

/// The days from the one after `cursor` through `tomorrow`, behind the
/// days `so_far` that lead from `last` to `cursor`.
proof fn lemma_pending_days_from(last: Date, tomorrow: Date, so_far: Seq<Date>, cursor: Date) -> (days:
    Seq<Date>)
    requires
        last.is_valid(),
        tomorrow.is_valid(),
        cursor.is_valid(),
        last.before(tomorrow),
        cursor.not_after(tomorrow),
        cursor == last.plus_days(so_far.len()),
        so_far.len() == 0 ==> cursor == last,
        so_far.len() > 0 ==> so_far.last() == cursor,
        forall|k: int| 0 <= k < so_far.len() ==> #[trigger] so_far[k] == last.plus_days((k + 1) as nat),
        forall|k: int| 0 <= k < so_far.len() ==> (#[trigger] so_far[k]).is_valid(),
        forall|k: int|
            0 <= k < so_far.len() ==> last.before(#[trigger] so_far[k]) && so_far[k].not_after(
                cursor,
            ),
    ensures
        are_pending_days(days, last, tomorrow),
    decreases tomorrow.year() - cursor.year(), 12 - cursor.month(), 31 - cursor.day(),
{
    if cursor.before(tomorrow) {
        lemma_next_is_successor(cursor, tomorrow);
        let next = cursor.next();
        lemma_before_is_total_order(last, cursor, next);
        assert forall|k: int| 0 <= k < so_far.len() implies (#[trigger] so_far[k]).not_after(
            next,
        ) by {
            lemma_before_is_total_order(so_far[k], cursor, next);
        }
        let longer = so_far.push(next);
        assert(next == last.plus_days(longer.len()));
        lemma_pending_days_from(last, tomorrow, longer, next)
    } else {
        lemma_before_is_total_order(cursor, tomorrow, tomorrow);
        assert forall|k: int| 0 <= k < so_far.len() implies (#[trigger] so_far[k]).not_after(
            tomorrow,
        ) by {}
        so_far
    }
}

/// There are pending days after every checkpoint: the days that are
/// pending after `last` through `tomorrow` are what their name says.
pub proof fn lemma_days_pending(last: Date, tomorrow: Date)
    requires
        last.is_valid(),
        tomorrow.is_valid(),
    ensures
        are_pending_days(days_pending(last, tomorrow), last, tomorrow),
{
    if last.before(tomorrow) {
        let days = lemma_pending_days_from(last, tomorrow, Seq::<Date>::empty(), last);
        assert(are_pending_days(days, last, tomorrow));
    } else {
        assert(are_pending_days(Seq::<Date>::empty(), last, tomorrow));
    }
}

/// The day of every merged entry is a day of the ledger afterwards.
pub proof fn lemma_merged_entry_days(days: Seq<(Date, Seq<(u128, i64)>)>, entries: Seq<LedgerEntry>)
    requires
        merged(days, entries) is Some,
    ensures
        forall|i: int|
            0 <= i < entries.len() ==> has_key(
                merged(days, entries)->0,
                (#[trigger] entries[i]).day,
            ),
    decreases entries.len(),
{
    if entries.len() > 0 {
        let shorter = entries.drop_last();
        let before = merged(days, shorter)->0;
        let entry = entries.last();
        let after = merged(days, entries)->0;
        lemma_merged_entry_days(days, shorter);
        let totals = value_or(before, entry.day, Seq::<(u128, i64)>::empty());
        let sum = (value_or(totals, entry.user_id.0, 0i64) + entry.amount) as i64;
        assert(after == put(before, entry.day, put(totals, entry.user_id.0, sum)));
        if has_key(before, entry.day) {
            lemma_place_holds_key(before, entry.day);
            assert(after[place_of(before, entry.day)].0 == entry.day);
        } else {
            assert(after[before.len() as int].0 == entry.day);
        }
        assert forall|i: int| 0 <= i < entries.len() implies has_key(
            after,
            (#[trigger] entries[i]).day,
        ) by {
            if i < shorter.len() {
                assert(shorter[i] == entries[i]);
                let day = shorter[i].day;
                assert(has_key(before, day));
                let at = place_of(before, day);
                assert(before[at].0 == day);
                assert(after[at].0 == day);
            }
        }
    }
}

/// Rolling no records forward changes nothing.
pub proof fn lemma_rolled_days_without_records(
    days: Seq<(Date, Seq<(u128, i64)>)>,
    records: Seq<LedgerEntry>,
    pending: Seq<Date>,
)
    requires
        records.len() == 0,
    ensures
        rolled_days(days, records, pending) == Some(days),
    decreases pending.len(),
{
    if pending.len() > 0 {
        lemma_rolled_days_without_records(days, records, pending.drop_last());
        assert(carried(records, pending.last()) =~= Seq::<LedgerEntry>::empty());
    }
}

/// Rolling records forward, where there are any, makes the last pending
/// day a day of the ledger.
pub proof fn lemma_rolled_days_with_records(
    days: Seq<(Date, Seq<(u128, i64)>)>,
    records: Seq<LedgerEntry>,
    pending: Seq<Date>,
)
    requires
        records.len() > 0,
        pending.len() > 0,
        rolled_days(days, records, pending) is Some,
    ensures
        has_key(rolled_days(days, records, pending)->0, pending.last()),
{
    let before = rolled_days(days, records, pending.drop_last())->0;
    let entries = carried(records, pending.last());
    lemma_merged_entry_days(before, entries);
    assert(entries[0].day == pending.last());
}

/// A roll-forward after which the last pending day is no day of the
/// ledger has found no row to roll, and has left the ledger as it was.
pub proof fn lemma_nothing_rolled(
    days: Seq<(Date, Seq<(u128, i64)>)>,
    players: Seq<UserInfo>,
    last: Date,
    pending: Seq<Date>,
)
    requires
        pending.len() > 0,
        rolled_pages(days, players, last, pending) is Some,
        !has_key(rolled_pages(days, players, last, pending)->0, pending.last()),
    ensures
        rolled_pages(days, players, last, pending) == Some(days),
    decreases players.len(),
{
    let records = entries_at(days, last, ids_of_players(first_page(players)));
    let after = rolled_days(days, records, pending)->0;
    if records.len() > 0 {
        lemma_rolled_days_with_records(days, records, pending);
        if players.len() >= PLAYERS_PAGE_SIZE {
            lemma_rolled_pages_days(after, players.skip(PLAYERS_PAGE_SIZE as int), last, pending);
        }
    } else {
        lemma_rolled_days_without_records(days, records, pending);
        if players.len() >= PLAYERS_PAGE_SIZE {
            lemma_nothing_rolled(days, players.skip(PLAYERS_PAGE_SIZE as int), last, pending);
        }
    }
}

/// The ledger that a roll-forward leaves: the ledger as it was where the
/// roll-forward found it current, the ledger with the rolled rows where
/// it did not.
pub open spec fn ledger_after(
    days: Seq<(Date, Seq<(u128, i64)>)>,
    players: Seq<UserInfo>,
    today: Date,
) -> Seq<(Date, Seq<(u128, i64)>)> {
    match rollforward_outcome(days, players, today) {
        Ok(Some(after)) => after,
        _ => days,
    }
}

/// Rolling forward twice on the same day, with the same players, leaves
/// what rolling forward once leaves, on every day but the last of a
/// month: the second roll-forward succeeds and changes nothing. Where the
/// first has written the rows of tomorrow, the second finds the ledger
/// current; where the first found no row to roll, the second finds none
/// either.
///
/// On the last day of a month tomorrow lies in a month that the search
/// for the last checkpoint, which starts at the month of today, does not
/// look into: there a second roll-forward merges the rows of tomorrow
/// again.
pub proof fn lemma_rollforward_is_idempotent_on_ledger(
    days: Seq<(Date, Seq<(u128, i64)>)>,
    players: Seq<UserInfo>,
    today: Date,
)
    requires
        today.is_valid(),
        today.has_next(),
        today.next().same_month(today),
        forall|i: int| 0 <= i < days.len() ==> (#[trigger] days[i]).0.is_valid(),
        rollforward_outcome(days, players, today) is Ok,
    ensures
        rollforward_outcome(ledger_after(days, players, today), players, today) is Ok,
        ledger_after(ledger_after(days, players, today), players, today) == ledger_after(
            days,
            players,
            today,
        ),
{
    let last = last_checkpoint(days, today.month_start())->0;
    let tomorrow = today.next();
    if rollforward_outcome(days, players, today) matches Ok(Some(_)) {
        let after = rollforward_outcome(days, players, today)->Ok_0->0;
        lemma_last_checkpoint_is_a_day(days, today.month_start());
        let at = place_of(days, last);
        assert(days[at].0.is_valid());
        lemma_next_exists(today);
        lemma_days_pending(last, tomorrow);
        let pending = days_pending(last, tomorrow);
        if has_key(after, tomorrow) {
            lemma_written_ledger_is_current(days, players, players, today);
        } else {
            lemma_nothing_rolled(days, players, last, pending);
        }
    }
}

/// Once a roll-forward on a day that is not the last of its month has
/// written a row for tomorrow, the next one on the same day finds
/// tomorrow as the last checkpoint and the ledger current, whoever the
/// players are.
pub proof fn lemma_written_ledger_is_current(
    days: Seq<(Date, Seq<(u128, i64)>)>,
    players: Seq<UserInfo>,
    again: Seq<UserInfo>,
    today: Date,
)
    requires
        today.is_valid(),
        today.has_next(),
        today.next().same_month(today),
        forall|i: int| 0 <= i < days.len() ==> (#[trigger] days[i]).0.is_valid(),
        rollforward_outcome(days, players, today) matches Ok(Some(after)) && has_key(
            after,
            today.next(),
        ),
    ensures
        rollforward_outcome(rollforward_outcome(days, players, today)->Ok_0->0, again, today)
            == Ok::<Option<Seq<(Date, Seq<(u128, i64)>)>>, ArchiveError>(None),
{
    let last = last_checkpoint(days, today.month_start())->0;
    let tomorrow = today.next();
    lemma_last_checkpoint_is_a_day(days, today.month_start());
    let at = place_of(days, last);
    assert(days[at].0.is_valid());
    lemma_next_exists(today);
    lemma_days_pending(last, tomorrow);
    lemma_second_rollforward_finds_ledger_current(
        days,
        players,
        today,
        last,
        days_pending(last, tomorrow),
    );
}

/// The last checkpoint that the search finds is a day of the ledger.
pub proof fn lemma_last_checkpoint_is_a_day(days: Seq<(Date, Seq<(u128, i64)>)>, month: Date)
    requires
        last_checkpoint(days, month) is Some,
    ensures
        has_key(days, last_checkpoint(days, month)->0),
    decreases month_index(month) - 12 * FLOOR_YEAR,
{
    lemma_newest_in_month(days, month);
    if newest_in_month(days, month) is None {
        if month.month() == 1 {
            Date::lemma_of_components(month.year() - 1, 12, 1);
        } else {
            Date::lemma_of_components(month.year(), month.month() - 1, 1);
        }
        lemma_last_checkpoint_is_a_day(days, month_subtracted(month));
    }
}

/// Once a roll-forward on a day that is not the last of its month has
/// written a row for tomorrow, the search finds tomorrow as the last
/// checkpoint, and with it the ledger is current.
pub proof fn lemma_second_rollforward_finds_ledger_current(
    days: Seq<(Date, Seq<(u128, i64)>)>,
    players: Seq<UserInfo>,
    today: Date,
    last: Date,
    pending: Seq<Date>,
)
    requires
        today.is_valid(),
        today.has_next(),
        today.next().same_month(today),
        last_checkpoint(days, today.month_start()) == Some(last),
        !is_current(last, today.next()),
        are_pending_days(pending, last, today.next()),
        rolled_pages(days, players, last, pending) is Some,
        has_key(rolled_pages(days, players, last, pending)->0, today.next()),
    ensures
        last_checkpoint(rolled_pages(days, players, last, pending)->0, today.month_start())
            == Some(today.next()),
        is_current(today.next(), today.next()),
{
    let month = today.month_start();
    let tomorrow = today.next();
    let after = rolled_pages(days, players, last, pending)->0;
    Date::lemma_of_components(today.year(), today.month(), 1);
    assert(tomorrow.same_month(month));
    lemma_rolled_pages_days(days, players, last, pending);
    lemma_newest_in_month(days, month);
    lemma_newest_in_month(after, month);
    lemma_before_is_total_order(tomorrow, tomorrow, tomorrow);
    let newest = newest_in_month(after, month);
    let at = place_of(after, tomorrow);
    assert(after[at].0.same_month(month));
    assert(newest is Some);
    let found = newest->0;
    assert(tomorrow.not_after(found));
    assert(has_key(days, found) || pending.contains(found));
    if has_key(days, found) {
        let before = place_of(days, found);
        assert(days[before].0.same_month(month));
        assert(newest_in_month(days, month) is Some);
        assert(last == newest_in_month(days, month)->0);
        assert(found.not_after(last));
        assert(last.before(tomorrow));
        lemma_before_is_total_order(found, last, tomorrow);
        lemma_before_is_total_order(tomorrow, found, tomorrow);
    } else {
        let k = choose|k: int| 0 <= k < pending.len() && pending[k] == found;
        assert(pending[k].not_after(tomorrow));
        lemma_before_is_total_order(tomorrow, found, tomorrow);
    }
    assert(found == tomorrow);
}

/// What `records` hold for `user`, in all.
pub open spec fn record_sum(records: Seq<LedgerEntry>, user: u128) -> int
    decreases records.len(),
{
    if records.len() == 0 {
        0
    } else {
        record_sum(records.drop_last(), user) + if records.last().user_id.0 == user {
            records.last().amount as int
        } else {
            0
        }
    }
}

/// How often `user` stands in `ids`.
pub open spec fn occurrences(ids: Seq<UserID>, user: UserID) -> nat
    decreases ids.len(),
{
    if ids.len() == 0 {
        0
    } else {
        occurrences(ids.drop_last(), user) + if ids.last() == user {
            1nat
        } else {
            0nat
        }
    }
}

/// The amount of the row that `days` holds for `user` on `day`; nothing
/// where there is no row.
pub open spec fn row_amount(days: Seq<(Date, Seq<(u128, i64)>)>, day: Date, user: u128) -> int {
    if has_key(value_or(days, day, Seq::<(u128, i64)>::empty()), user) {
        wl_total(days, day, user)
    } else {
        0
    }
}

/// Records that are carried to a day hold, for that day, what they hold
/// in all, and nothing for any other day.
pub proof fn lemma_carried_sum(records: Seq<LedgerEntry>, to: Date, day: Date, user: u128)
    ensures
        entry_sum(carried(records, to), day, user) == if day == to {
            record_sum(records, user)
        } else {
            0
        },
    decreases records.len(),
{
    if records.len() > 0 {
        lemma_carried_sum(records.drop_last(), to, day, user);
        assert(carried(records, to).drop_last() =~= carried(records.drop_last(), to));
        assert(carried(records, to).last().day == to);
        assert(carried(records, to).last().user_id == records.last().user_id);
        assert(carried(records, to).last().amount == records.last().amount);
    } else {
        assert(carried(records, to) =~= Seq::<LedgerEntry>::empty());
    }
}

/// Rolling records through pending days adds, on each of these days, to
/// what the ledger holds for a user what the records hold for the user,
/// and leaves every other day as it is.
pub proof fn lemma_rolled_days_totals(
    days: Seq<(Date, Seq<(u128, i64)>)>,
    records: Seq<LedgerEntry>,
    pending: Seq<Date>,
)
    requires
        well_keyed(days),
        pending.no_duplicates(),
        rolled_days(days, records, pending) is Some,
    ensures
        well_keyed(rolled_days(days, records, pending)->0),
        forall|day: Date, user: u128| #[trigger]
            wl_total(rolled_days(days, records, pending)->0, day, user) == wl_total(
                days,
                day,
                user,
            ) + if pending.contains(day) {
                record_sum(records, user)
            } else {
                0
            },
        forall|day: Date|
            !pending.contains(day) ==> value_or(
                rolled_days(days, records, pending)->0,
                day,
                Seq::<(u128, i64)>::empty(),
            ) == value_or(days, day, Seq::<(u128, i64)>::empty()),
    decreases pending.len(),
{
    if pending.len() > 0 {
        let shorter = pending.drop_last();
        let to = pending.last();
        let before = rolled_days(days, records, shorter)->0;
        let after = rolled_days(days, records, pending)->0;
        let empty = Seq::<(u128, i64)>::empty();
        assert forall|i: int, j: int| 0 <= i < shorter.len() && 0 <= j < shorter.len() && i
            != j implies shorter[i] != shorter[j] by {
            assert(pending[i] != pending[j]);
        }
        lemma_rolled_days_totals(days, records, shorter);
        lemma_merged_totals(before, carried(records, to));
        assert(!shorter.contains(to)) by {
            if shorter.contains(to) {
                let i = choose|i: int| 0 <= i < shorter.len() && shorter[i] == to;
                assert(pending[i] == pending[pending.len() - 1]);
            }
        }
        assert forall|day: Date| pending.contains(day) <==> shorter.contains(day) || day
            == to by {
            if pending.contains(day) {
                let i = choose|i: int| 0 <= i < pending.len() && pending[i] == day;
                if i < shorter.len() {
                    assert(shorter[i] == day);
                }
            }
            if shorter.contains(day) {
                let i = choose|i: int| 0 <= i < shorter.len() && shorter[i] == day;
                assert(pending[i] == day);
            }
            if day == to {
                assert(pending[pending.len() - 1] == day);
            }
        }
        assert forall|day: Date, user: u128| #[trigger]
            wl_total(after, day, user) == wl_total(days, day, user) + if pending.contains(day) {
                record_sum(records, user)
            } else {
                0
            } by {
            lemma_carried_sum(records, to, day, user);
            assert(wl_total(after, day, user) == wl_total(before, day, user) + entry_sum(
                carried(records, to),
                day,
                user,
            ));
            assert(wl_total(before, day, user) == wl_total(days, day, user) + if shorter.contains(
                day,
            ) {
                record_sum(records, user)
            } else {
                0
            });
        }
        assert forall|day: Date| !pending.contains(day) implies value_or(after, day, empty)
            == value_or(days, day, empty) by {
            assert(day != to);
            assert forall|i: int| 0 <= i < carried(records, to).len() implies (
            #[trigger] carried(records, to)[i]).day != day by {}
        }
    }
}

/// The rows that a ledger holds for some users on a day hold, for a
/// user, the amount of the user's row as often as the user stands among
/// the users.
pub proof fn lemma_entries_at_sum(
    days: Seq<(Date, Seq<(u128, i64)>)>,
    day: Date,
    users: Seq<UserID>,
    user: UserID,
)
    ensures
        record_sum(entries_at(days, day, users), user.0) == occurrences(users, user) * row_amount(
            days,
            day,
            user.0,
        ),
    decreases users.len(),
{
    if users.len() > 0 {
        lemma_entries_at_sum(days, day, users.drop_last(), user);
        let before = entries_at(days, day, users.drop_last());
        let last = users.last();
        let totals = value_or(days, day, Seq::<(u128, i64)>::empty());
        let count = occurrences(users.drop_last(), user);
        let amount = row_amount(days, day, user.0);
        if has_key(totals, last.0) {
            assert(entries_at(days, day, users).drop_last() =~= before);
            if last == user {
                assert((count + 1) * amount == count * amount + amount) by (nonlinear_arith);
            }
        } else {
            if last == user {
                assert(amount == 0);
                assert((count + 1) * amount == count * amount) by (nonlinear_arith)
                    requires
                        amount == 0,
                ;
            }
        }
    } else {
        assert(0 * row_amount(days, day, user.0) == 0) by (nonlinear_arith);
    }
}

/// A user stands among the players as often as on their first page and
/// on the pages behind it together.
pub proof fn lemma_occurrences_by_page(players: Seq<UserInfo>, user: UserID, split: int)
    requires
        0 <= split <= players.len(),
    ensures
        occurrences(ids_of_players(players), user) == occurrences(
            ids_of_players(players.take(split)),
            user,
        ) + occurrences(ids_of_players(players.skip(split)), user),
    decreases players.len() - split,
{
    let ids = ids_of_players(players);
    if split == players.len() {
        assert(players.take(split) =~= players);
        assert(ids_of_players(players.skip(split)) =~= Seq::<UserID>::empty());
    } else {
        let shorter = players.drop_last();
        lemma_occurrences_by_page(shorter, user, split);
        assert(ids.drop_last() =~= ids_of_players(shorter));
        assert(shorter.take(split) =~= players.take(split));
        assert(ids_of_players(players.skip(split)).drop_last() =~= ids_of_players(
            shorter.skip(split),
        ));
        assert(ids_of_players(players.skip(split)).last() == ids.last());
    }
}

/// Rolling the players forward adds, on every pending day, to what the
/// ledger holds for a user the amount of the user's row on the last
/// checkpoint, as often as the user stands among the players. The rows of
/// the last checkpoint stay as they are.
pub proof fn lemma_rolled_pages_totals(
    days: Seq<(Date, Seq<(u128, i64)>)>,
    players: Seq<UserInfo>,
    last: Date,
    pending: Seq<Date>,
    user: UserID,
)
    requires
        well_keyed(days),
        pending.no_duplicates(),
        !pending.contains(last),
        rolled_pages(days, players, last, pending) is Some,
    ensures
        well_keyed(rolled_pages(days, players, last, pending)->0),
        value_or(rolled_pages(days, players, last, pending)->0, last, Seq::<(u128, i64)>::empty())
            == value_or(days, last, Seq::<(u128, i64)>::empty()),
        forall|day: Date|
            pending.contains(day) ==> #[trigger] wl_total(
                rolled_pages(days, players, last, pending)->0,
                day,
                user.0,
            ) == wl_total(days, day, user.0) + occurrences(ids_of_players(players), user)
                * row_amount(days, last, user.0),
    decreases players.len(),
{
    let page = first_page(players);
    let records = entries_at(days, last, ids_of_players(page));
    let after = rolled_days(days, records, pending)->0;
    let amount = row_amount(days, last, user.0);
    lemma_rolled_days_totals(days, records, pending);
    lemma_entries_at_sum(days, last, ids_of_players(page), user);
    if players.len() >= PLAYERS_PAGE_SIZE {
        let rest = players.skip(PLAYERS_PAGE_SIZE as int);
        lemma_rolled_pages_totals(after, rest, last, pending, user);
        lemma_occurrences_by_page(players, user, PLAYERS_PAGE_SIZE as int);
        let first = occurrences(ids_of_players(page), user);
        let behind = occurrences(ids_of_players(rest), user);
        assert(row_amount(after, last, user.0) == amount);
        assert((first + behind) * amount == first * amount + behind * amount)
            by (nonlinear_arith);
        assert forall|day: Date| pending.contains(day) implies #[trigger] wl_total(
            rolled_pages(days, players, last, pending)->0,
            day,
            user.0,
        ) == wl_total(days, day, user.0) + occurrences(ids_of_players(players), user)
            * amount by {
            assert(wl_total(after, day, user.0) == wl_total(days, day, user.0) + first * amount);
        }
    } else {
        assert forall|day: Date| pending.contains(day) implies #[trigger] wl_total(
            rolled_pages(days, players, last, pending)->0,
            day,
            user.0,
        ) == wl_total(days, day, user.0) + occurrences(ids_of_players(players), user)
            * amount by {
            assert(wl_total(after, day, user.0) == wl_total(days, day, user.0) + record_sum(
                records,
                user.0,
            ));
        }
    }
}

/// Whether a record of `records` is for `user`.
pub open spec fn has_record(records: Seq<LedgerEntry>, user: u128) -> bool {
    exists|i: int| 0 <= i < records.len() && (#[trigger] records[i]).user_id.0 == user
}

/// Rolling records through pending days makes, on each of these days, a
/// row for every user that a record is for, and neither makes nor takes
/// away any other row.
pub proof fn lemma_rolled_days_rows(
    days: Seq<(Date, Seq<(u128, i64)>)>,
    records: Seq<LedgerEntry>,
    pending: Seq<Date>,
)
    requires
        well_keyed(days),
        pending.no_duplicates(),
        rolled_days(days, records, pending) is Some,
    ensures
        forall|day: Date, user: u128| #[trigger]
            row_exists(rolled_days(days, records, pending)->0, day, user) <==> row_exists(
                days,
                day,
                user,
            ) || (pending.contains(day) && has_record(records, user)),
    decreases pending.len(),
{
    if pending.len() > 0 {
        let shorter = pending.drop_last();
        let to = pending.last();
        let before = rolled_days(days, records, shorter)->0;
        let after = rolled_days(days, records, pending)->0;
        let entries = carried(records, to);
        assert forall|i: int, j: int| 0 <= i < shorter.len() && 0 <= j < shorter.len() && i
            != j implies shorter[i] != shorter[j] by {
            assert(pending[i] != pending[j]);
        }
        lemma_rolled_days_rows(days, records, shorter);
        lemma_rolled_days_totals(days, records, shorter);
        lemma_merged_rows(before, entries);
        assert forall|day: Date, user: u128| #[trigger]
            row_exists(after, day, user) <==> row_exists(days, day, user) || (pending.contains(
                day,
            ) && has_record(records, user)) by {
            if names_row(entries, day, user) {
                let i = choose|i: int|
                    0 <= i < entries.len() && (#[trigger] entries[i]).day == day
                        && entries[i].user_id.0 == user;
                assert(records[i].user_id.0 == user);
                assert(pending[pending.len() - 1] == day);
            }
            if shorter.contains(day) {
                let i = choose|i: int| 0 <= i < shorter.len() && shorter[i] == day;
                assert(pending[i] == day);
            }
            if pending.contains(day) && has_record(records, user) {
                let k = choose|k: int| 0 <= k < pending.len() && pending[k] == day;
                if k < shorter.len() {
                    assert(shorter[k] == day);
                } else {
                    let i = choose|i: int|
                        0 <= i < records.len() && (#[trigger] records[i]).user_id.0 == user;
                    assert(entries[i].day == day && entries[i].user_id.0 == user);
                }
            }
        }
    }
}

/// The rows that a ledger holds for some users on a day hold a record
/// for a user exactly where the user stands among the users and has a row
/// on the day.
pub proof fn lemma_entries_at_records(
    days: Seq<(Date, Seq<(u128, i64)>)>,
    day: Date,
    users: Seq<UserID>,
    user: UserID,
)
    ensures
        has_record(entries_at(days, day, users), user.0) <==> users.contains(user) && row_exists(
            days,
            day,
            user.0,
        ),
    decreases users.len(),
{
    let all = entries_at(days, day, users);
    if users.len() > 0 {
        let shorter = users.drop_last();
        let before = entries_at(days, day, shorter);
        let last = users.last();
        lemma_entries_at_records(days, day, shorter, user);
        if has_record(before, user.0) {
            let i = choose|i: int| 0 <= i < before.len() && (#[trigger] before[i]).user_id.0
                == user.0;
            assert(all[i].user_id.0 == user.0);
        }
        if shorter.contains(user) {
            let i = choose|i: int| 0 <= i < shorter.len() && shorter[i] == user;
            assert(users[i] == user);
        }
        if last == user {
            assert(users[users.len() - 1] == user);
            if row_exists(days, day, user.0) {
                assert(all[all.len() - 1].user_id.0 == user.0);
            }
        }
        if has_record(all, user.0) {
            let i = choose|i: int| 0 <= i < all.len() && (#[trigger] all[i]).user_id.0 == user.0;
            if i < before.len() {
                assert(before[i].user_id.0 == user.0);
            } else {
                assert(last.0 == user.0);
            }
        }
        if users.contains(user) {
            let i = choose|i: int| 0 <= i < users.len() && users[i] == user;
            if i < shorter.len() {
                assert(shorter[i] == user);
            }
        }
    }
}

/// A user stands among the players exactly where the user stands on
/// their first page or on a page behind it.
pub proof fn lemma_player_by_page(players: Seq<UserInfo>, user: UserID, split: int)
    requires
        0 <= split <= players.len(),
    ensures
        ids_of_players(players).contains(user) <==> ids_of_players(players.take(split)).contains(
            user,
        ) || ids_of_players(players.skip(split)).contains(user),
{
    let all = ids_of_players(players);
    let first = ids_of_players(players.take(split));
    let behind = ids_of_players(players.skip(split));
    if all.contains(user) {
        let i = choose|i: int| 0 <= i < all.len() && all[i] == user;
        if i < split {
            assert(first[i] == user);
        } else {
            assert(behind[i - split] == user);
        }
    }
    if first.contains(user) {
        let i = choose|i: int| 0 <= i < first.len() && first[i] == user;
        assert(all[i] == user);
    }
    if behind.contains(user) {
        let i = choose|i: int| 0 <= i < behind.len() && behind[i] == user;
        assert(all[i + split] == user);
    }
}

/// Rolling the players forward makes, on every pending day, a row for
/// every player who has one on the last checkpoint, and neither makes nor
/// takes away any other row.
pub proof fn lemma_rolled_pages_rows(
    days: Seq<(Date, Seq<(u128, i64)>)>,
    players: Seq<UserInfo>,
    last: Date,
    pending: Seq<Date>,
    user: UserID,
)
    requires
        well_keyed(days),
        pending.no_duplicates(),
        !pending.contains(last),
        rolled_pages(days, players, last, pending) is Some,
    ensures
        forall|day: Date| #[trigger]
            row_exists(rolled_pages(days, players, last, pending)->0, day, user.0) <==> row_exists(
                days,
                day,
                user.0,
            ) || (pending.contains(day) && ids_of_players(players).contains(user) && row_exists(
                days,
                last,
                user.0,
            )),
    decreases players.len(),
{
    let page = first_page(players);
    let records = entries_at(days, last, ids_of_players(page));
    let after = rolled_days(days, records, pending)->0;
    lemma_rolled_days_rows(days, records, pending);
    lemma_rolled_days_totals(days, records, pending);
    lemma_entries_at_records(days, last, ids_of_players(page), user);
    if players.len() >= PLAYERS_PAGE_SIZE {
        let rest = players.skip(PLAYERS_PAGE_SIZE as int);
        lemma_rolled_pages_rows(after, rest, last, pending, user);
        lemma_player_by_page(players, user, PLAYERS_PAGE_SIZE as int);
        assert(row_exists(after, last, user.0) == row_exists(days, last, user.0));
    }
}

/// Rolling the players forward leaves the rows of every day that is not
/// pending as they are, and keeps the days and users of the ledger
/// distinct.
pub proof fn lemma_rolled_pages_elsewhere(
    days: Seq<(Date, Seq<(u128, i64)>)>,
    players: Seq<UserInfo>,
    last: Date,
    pending: Seq<Date>,
)
    requires
        well_keyed(days),
        pending.no_duplicates(),
        rolled_pages(days, players, last, pending) is Some,
    ensures
        well_keyed(rolled_pages(days, players, last, pending)->0),
        forall|day: Date|
            !pending.contains(day) ==> #[trigger] value_or(
                rolled_pages(days, players, last, pending)->0,
                day,
                Seq::<(u128, i64)>::empty(),
            ) == value_or(days, day, Seq::<(u128, i64)>::empty()),
    decreases players.len(),
{
    let records = entries_at(days, last, ids_of_players(first_page(players)));
    let after = rolled_days(days, records, pending)->0;
    lemma_rolled_days_totals(days, records, pending);
    if players.len() >= PLAYERS_PAGE_SIZE {
        lemma_rolled_pages_elsewhere(after, players.skip(PLAYERS_PAGE_SIZE as int), last, pending);
    }
}

/// A user who stands among some users at all stands there at least once.
pub proof fn lemma_occurs_where_counted(ids: Seq<UserID>, user: UserID)
    requires
        occurrences(ids, user) > 0,
    ensures
        ids.contains(user),
    decreases ids.len(),
{
    if ids.len() > 0 {
        if ids.last() == user {
            assert(ids[ids.len() - 1] == user);
        } else {
            lemma_occurs_where_counted(ids.drop_last(), user);
            let i = choose|i: int| 0 <= i < ids.drop_last().len() && ids.drop_last()[i] == user;
            assert(ids[i] == user);
        }
    }
}

/// Roll-forward is complete: after a roll-forward that had something to
/// do, a player who stands once among the players, with a row on the last
/// checkpoint and nothing behind it, has a row for every day after the
/// last checkpoint through tomorrow, one row a day, and every one of them
/// holds the amount of the last checkpoint. The rows of the last
/// checkpoint, and of every other day that is not pending, stay as they
/// are: nothing is written for a day after tomorrow.
///
/// A day's rows lie in the partition that the day maps to, which the
/// day's month alone decides.
pub proof fn lemma_rollforward_is_complete_on_ledger(
    days: Seq<(Date, Seq<(u128, i64)>)>,
    players: Seq<UserInfo>,
    today: Date,
    user: UserID,
)
    requires
        well_keyed(days),
        today.is_valid(),
        forall|i: int| 0 <= i < days.len() ==> (#[trigger] days[i]).0.is_valid(),
        rollforward_outcome(days, players, today) matches Ok(Some(_)),
        occurrences(ids_of_players(players), user) == 1,
        forall|day: Date|
            last_checkpoint(days, today.month_start())->0.before(day) ==> #[trigger] wl_total(
                days,
                day,
                user.0,
            ) == 0,
    ensures
        ({
            let last = last_checkpoint(days, today.month_start())->0;
            let after = rollforward_outcome(days, players, today)->Ok_0->0;
            let pending = days_pending(last, today.next());
            let empty = Seq::<(u128, i64)>::empty();
            &&& are_pending_days(pending, last, today.next())
            &&& well_keyed(after)
            &&& forall|k: int|
                0 <= k < pending.len() ==> #[trigger] wl_total(after, pending[k], user.0)
                    == row_amount(days, last, user.0)
            &&& forall|k: int|
                0 <= k < pending.len() && row_exists(days, last, user.0) ==> #[trigger] row_exists(
                    after,
                    pending[k],
                    user.0,
                )
            &&& value_or(after, last, empty) == value_or(days, last, empty)
            &&& forall|day: Date|
                !pending.contains(day) ==> #[trigger] value_or(after, day, empty) == value_or(
                    days,
                    day,
                    empty,
                )
            &&& forall|day: Date|
                today.next().before(day) ==> !pending.contains(day) && (#[trigger] has_key(
                    after,
                    day,
                ) <==> has_key(days, day))
        }),
{
    let last = last_checkpoint(days, today.month_start())->0;
    let tomorrow = today.next();
    let pending = days_pending(last, tomorrow);
    let after = rollforward_outcome(days, players, today)->Ok_0->0;
    lemma_last_checkpoint_is_a_day(days, today.month_start());
    let at = place_of(days, last);
    assert(days[at].0.is_valid());
    lemma_next_exists(today);
    lemma_days_pending(last, tomorrow);
    lemma_pending_days_are_distinct(pending, last, tomorrow);
    lemma_before_is_total_order(last, last, last);
    assert(!pending.contains(last)) by {
        if pending.contains(last) {
            let k = choose|k: int| 0 <= k < pending.len() && pending[k] == last;
            assert(last.before(pending[k]));
        }
    }
    lemma_rolled_pages_totals(days, players, last, pending, user);
    lemma_rolled_pages_rows(days, players, last, pending, user);
    lemma_rolled_pages_elsewhere(days, players, last, pending);
    lemma_rolled_pages_days(days, players, last, pending);
    lemma_occurs_where_counted(ids_of_players(players), user);
    let amount = row_amount(days, last, user.0);
    assert(1 * amount == amount) by (nonlinear_arith);
    assert forall|k: int| 0 <= k < pending.len() implies #[trigger] wl_total(
        after,
        pending[k],
        user.0,
    ) == amount by {
        assert(pending.contains(pending[k]));
        assert(last.before(pending[k]));
    }
    assert forall|k: int|
        0 <= k < pending.len() && row_exists(days, last, user.0) implies #[trigger] row_exists(
        after,
        pending[k],
        user.0,
    ) by {
        assert(pending.contains(pending[k]));
    }
    assert forall|day: Date| tomorrow.before(day) implies !pending.contains(day) && (
    #[trigger] has_key(after, day) <==> has_key(days, day)) by {
        if pending.contains(day) {
            let k = choose|k: int| 0 <= k < pending.len() && pending[k] == day;
            assert(pending[k].not_after(tomorrow));
            lemma_before_is_total_order(tomorrow, day, tomorrow);
        }
    }
}

/// No day is pending twice.
pub proof fn lemma_pending_days_are_distinct(pending: Seq<Date>, last: Date, tomorrow: Date)
    requires
        are_pending_days(pending, last, tomorrow),
        last.is_valid(),
    ensures
        pending.no_duplicates(),
{
    assert forall|i: int, j: int| 0 <= i < pending.len() && 0 <= j < pending.len() && i
        != j implies pending[i] != pending[j] by {
        assert(last.plus_days(0) == last);
        assert forall|k: nat| k <= pending.len() implies (#[trigger] last.plus_days(k)).is_valid() by {
            if k > 0 {
                assert(pending[k - 1] == last.plus_days(((k - 1) + 1) as nat));
                assert(pending[k - 1].is_valid());
            }
        }
        assert(pending[i] == last.plus_days((i + 1) as nat));
        assert(pending[j] == last.plus_days((j + 1) as nat));
        if i < j {
            assert forall|k: nat| k <= (j + 1) as nat implies (#[trigger] last.plus_days(
                k,
            )).is_valid() by {}
            lemma_plus_days_increasing(last, (i + 1) as nat, (j + 1) as nat);
        } else {
            assert forall|k: nat| k <= (i + 1) as nat implies (#[trigger] last.plus_days(
                k,
            )).is_valid() by {}
            lemma_plus_days_increasing(last, (j + 1) as nat, (i + 1) as nat);
        }
        lemma_before_is_total_order(pending[i], pending[j], pending[i]);
    }
}

} // verus!
