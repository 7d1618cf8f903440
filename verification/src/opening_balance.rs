//! The roll-forward of the balance ledger.
//!
//! The ledger holds, for every player, one row per checkpoint day with the
//! player's running balance. Before bets are settled the ledger is brought
//! up to tomorrow: the rows of the last checkpoint are copied forward, day
//! by day, each into the partition of its day.

use crate::calendar::{
    get_hong_kong_11_hours_from_date, lemma_before_is_total_order, lemma_next_is_later,
    lemma_next_is_successor, month_index, month_subtracted, subtract_one_month, Date,
    Timestamp,
};
use crate::error::ArchiveError;
use crate::ident::new_row_id;
use crate::naming::{Partition, OPENING_BALANCE_TABLE_NAME};
use crate::records::{OpeningBalance, UserInfo};
use crate::state::State;
use crate::types::UserID;
use vstd::prelude::*;

verus! {

/// The year at which the search for the last checkpoint gives up: the
/// ledger holds nothing from this year or from before it.
pub const FLOOR_YEAR: i32 = 2020;

/// How many players one page of the roll-forward holds.
pub const PLAYERS_PAGE_SIZE: i64 = 2000;

/// Whether the search for the last checkpoint may still ask the partition
/// of `month`.
pub open spec fn above_floor(month: Date) -> bool {
    month.year() > FLOOR_YEAR
}

/// The partition of the balance ledger to ask next for its newest
/// checkpoint, while the search is at `month`. A month in the floor year,
/// or before it, is an error: the ledger was never seeded.
pub fn checkpoint_probe(month: Date) -> (result: Result<Partition, ArchiveError>)
    ensures
        above_floor(month) ==> (result matches Ok(partition) && partition.holds(
            OPENING_BALANCE_TABLE_NAME@,
            month,
        )),
        !above_floor(month) ==> (result matches Err(e) && e == ArchiveError::NoOpeningBalance),
{
    if month.get_year() <= FLOOR_YEAR {
        return Err(ArchiveError::NoOpeningBalance);
    }
    Ok(Partition::locate(OPENING_BALANCE_TABLE_NAME, month))
}

/// How the search for the last checkpoint goes on after a partition was
/// asked.
#[derive(Debug, Clone, Copy, PartialEq, Eq, Structural)]
pub enum CheckpointSearch {
    /// The partition held rows: the newest of their days is the last
    /// checkpoint.
    Found(Date),
    /// The partition held nothing: the month before is next.
    Probe(Date),
}

/// What follows from the answer of the partition of `month`, which was
/// above the floor: its newest checkpoint where it has one, the month
/// before where it has none.
pub fn checkpoint_answered(month: Date, newest: Option<Date>) -> (next: CheckpointSearch)
    requires
        above_floor(month),
    ensures
        match newest {
            Some(checkpoint) => next == CheckpointSearch::Found(checkpoint),
            None => next matches CheckpointSearch::Probe(earlier) && earlier
                == month_subtracted(month) && earlier.is_valid() && earlier.before(month)
                && month_index(earlier) == month_index(month) - 1,
        },
{
    match newest {
        Some(checkpoint) => CheckpointSearch::Found(checkpoint),
        None => CheckpointSearch::Probe(subtract_one_month(month)),
    }
}

/// Whether the ledger is current: its last checkpoint is tomorrow, or
/// lies after it.
pub open spec fn is_current(last_checkpoint: Date, tomorrow: Date) -> bool {
    !last_checkpoint.before(tomorrow)
}

/// Whether `days` holds the days after `last` through `tomorrow`, in
/// order and without a gap: none where `last` is not before `tomorrow`.
pub open spec fn are_pending_days(days: Seq<Date>, last: Date, tomorrow: Date) -> bool {
    &&& days.len() == 0 <==> is_current(last, tomorrow)
    &&& forall|k: int| 0 <= k < days.len() ==> #[trigger] days[k] == last.plus_days((k + 1) as nat)
    &&& forall|k: int| 0 <= k < days.len() ==> (#[trigger] days[k]).is_valid()
    &&& forall|k: int|
        0 <= k < days.len() ==> last.before(#[trigger] days[k]) && days[k].not_after(tomorrow)
    &&& days.len() > 0 ==> days.last() == tomorrow
}

/// The days for which the ledger lacks its rows: every day after the
/// last checkpoint through tomorrow. A ledger that is current lacks none.
pub fn pending_days(last_checkpoint: Date, tomorrow: Date) -> (days: Vec<Date>)
    ensures
        are_pending_days(days@, last_checkpoint, tomorrow),
{
    let mut days: Vec<Date> = Vec::new();
    let mut cursor = last_checkpoint;
    if !last_checkpoint.is_before(&tomorrow) {
        proof {
            lemma_before_is_total_order(last_checkpoint, tomorrow, tomorrow);
        }
        return days;
    }
    proof {
        lemma_before_is_total_order(last_checkpoint, tomorrow, tomorrow);
    }
    while cursor.is_before(&tomorrow)
        invariant
            last_checkpoint.is_valid(),
            tomorrow.is_valid(),
            cursor.is_valid(),
            days@.len() > 0 ==> cursor.not_after(tomorrow),
            cursor == last_checkpoint.plus_days(days@.len() as nat),
            days@.len() == 0 ==> cursor == last_checkpoint,
            days@.len() > 0 ==> days@.last() == cursor && last_checkpoint.before(tomorrow),
            forall|k: int|
                0 <= k < days@.len() ==> #[trigger] days@[k] == last_checkpoint.plus_days(
                    (k + 1) as nat,
                ),
            forall|k: int| 0 <= k < days@.len() ==> (#[trigger] days@[k]).is_valid(),
            forall|k: int|
                0 <= k < days@.len() ==> last_checkpoint.before(#[trigger] days@[k])
                    && days@[k].not_after(cursor),
        decreases
                tomorrow.year() - cursor.year(),
                12 - cursor.month(),
                31 - cursor.day(),
    {
        proof {
            lemma_next_is_successor(cursor, tomorrow);
        }
        let ghost before = cursor;
        let next = match cursor.next_day() {
            Some(next) => next,
            None => cursor,
        };
        proof {
            lemma_before_is_total_order(last_checkpoint, before, next);
            assert forall|k: int| 0 <= k < days@.len() implies (#[trigger] days@[k]).not_after(
                next,
            ) by {
                lemma_before_is_total_order(days@[k], before, next);
            }
        }
        cursor = next;
        days.push(cursor);
    }
    proof {
        lemma_before_is_total_order(cursor, tomorrow, tomorrow);
    }
    days
}

/// Whether `rows` carries `records` forward to `day`: row for row the
/// same user and the same amount, with `day` as the checkpoint. The
/// identities are fresh.
pub open spec fn carries_forward(
    rows: Seq<OpeningBalance>,
    records: Seq<OpeningBalance>,
    day: Date,
) -> bool {
    &&& rows.len() == records.len()
    &&& forall|i: int|
        0 <= i < records.len() ==> (#[trigger] rows[i]).user_id == records[i].user_id
            && rows[i].amount == records[i].amount && rows[i].creation_date
            == Timestamp::cutoff_on(day)
}

/// The rows of `day`: a copy of every record of the last checkpoint, with
/// a fresh identity and `day` as its checkpoint.
pub fn carry_forward(records: &Vec<OpeningBalance>, day: Date) -> (rows: Vec<OpeningBalance>)
    ensures
        carries_forward(rows@, records@, day),
{
    let mut rows: Vec<OpeningBalance> = Vec::new();
    let mut i: usize = 0;
    while i < records.len()
        invariant
            i <= records@.len(),
            carries_forward(rows@, records@.take(i as int), day),
        decreases records@.len() - i,
    {
        let record = &records[i];
        rows.push(
            OpeningBalance {
                id: new_row_id(),
                creation_date: get_hong_kong_11_hours_from_date(day),
                amount: record.amount,
                user_id: record.user_id,
            },
        );
        i += 1;
    }
    proof {
        assert(records@.take(i as int) =~= records@);
    }
    rows
}

/// What the roll-forward writes for one day: the rows, and the partition
/// that they are merged into.
pub struct DayRows {
    pub day: Date,
    pub partition: Partition,
    pub rows: Vec<OpeningBalance>,
}

/// Whether `plan` rolls `records` forward from `last` through `tomorrow`:
/// one entry for every pending day, in order, with that day's copy of the
/// records and the partition of that day.
pub open spec fn rolls_forward(
    plan: Seq<DayRows>,
    records: Seq<OpeningBalance>,
    last: Date,
    tomorrow: Date,
) -> bool {
    &&& are_pending_days(Seq::new(plan.len(), |k: int| plan[k].day), last, tomorrow)
    &&& forall|k: int|
        0 <= k < plan.len() ==> (#[trigger] plan[k]).partition.holds(
            OPENING_BALANCE_TABLE_NAME@,
            plan[k].day,
        ) && carries_forward(plan[k].rows@, records, plan[k].day)
}

/// Rolls the records of one page of players forward: for every day after
/// the last checkpoint through tomorrow, a copy of the records to merge
/// into that day's partition. Nothing where the ledger is current.
pub fn roll_page_forward(
    opening_balance_records: &Vec<OpeningBalance>,
    last_opening_balance_date: Date,
    tomorrow: Date,
) -> (plan: Vec<DayRows>)
    ensures
        rolls_forward(plan@, opening_balance_records@, last_opening_balance_date, tomorrow),
{
    let days = pending_days(last_opening_balance_date, tomorrow);
    let mut plan: Vec<DayRows> = Vec::new();
    let mut k: usize = 0;
    while k < days.len()
        invariant
            k <= days@.len(),
            plan@.len() == k,
            forall|j: int| 0 <= j < k ==> (#[trigger] plan@[j]).day == days@[j],
            forall|j: int|
                0 <= j < k ==> (#[trigger] plan@[j]).partition.holds(
                    OPENING_BALANCE_TABLE_NAME@,
                    plan@[j].day,
                ) && carries_forward(plan@[j].rows@, opening_balance_records@, plan@[j].day),
        decreases days@.len() - k,
    {
        let day = days[k];
        plan.push(
            DayRows {
                day,
                partition: Partition::locate(OPENING_BALANCE_TABLE_NAME, day),
                rows: carry_forward(opening_balance_records, day),
            },
        );
        k += 1;
    }
    proof {
        assert(Seq::new(plan@.len(), |k: int| plan@[k].day) =~= days@);
    }
    plan
}

/// The credit players after every player of `players` that plays on
/// credit was registered, in turn.
pub open spec fn credit_registered(credit_players: Map<u128, bool>, players: Seq<UserInfo>) -> Map<
    u128,
    bool,
>
    decreases players.len(),
{
    if players.len() == 0 {
        credit_players
    } else {
        let before = credit_registered(credit_players, players.drop_last());
        if players.last().is_credit {
            before.insert(players.last().user_id.0, true)
        } else {
            before
        }
    }
}

/// Takes in one page of players: registers those that play on credit, and
/// gives the identities of all of them, in the page's order.
pub fn register_players(players_chunk: &Vec<UserInfo>, state: &mut State) -> (user_ids: Vec<UserID>)
    ensures
        user_ids@ == Seq::new(players_chunk@.len(), |i: int| players_chunk@[i].user_id),
        final(state).credit_players@ == credit_registered(
            old(state).credit_players@,
            players_chunk@,
        ),
        final(state).username_by_user_id == old(state).username_by_user_id,
        final(state).upline == old(state).upline,
{
    let mut user_ids: Vec<UserID> = Vec::new();
    let mut i: usize = 0;
    proof {
        assert(players_chunk@.take(0) =~= Seq::<UserInfo>::empty());
    }
    while i < players_chunk.len()
        invariant
            i <= players_chunk@.len(),
            user_ids@ == Seq::new(i as nat, |j: int| players_chunk@[j].user_id),
            state.credit_players@ == credit_registered(
                old(state).credit_players@,
                players_chunk@.take(i as int),
            ),
            state.username_by_user_id == old(state).username_by_user_id,
            state.upline == old(state).upline,
        decreases players_chunk@.len() - i,
    {
        let user = &players_chunk[i];
        proof {
            assert(players_chunk@.take(i + 1).drop_last() =~= players_chunk@.take(i as int));
            assert(players_chunk@.take(i + 1).last() == players_chunk@[i as int]);
        }
        user_ids.push(user.user_id);
        if user.is_credit {
            state.add_credit_player(user.user_id);
        }
        i += 1;
        proof {
            assert(user_ids@ =~= Seq::new(i as nat, |j: int| players_chunk@[j].user_id));
        }
    }
    proof {
        assert(players_chunk@.take(i as int) =~= players_chunk@);
    }
    user_ids
}

/// Whether a page of `players` players was the last: only a full page is
/// followed by another.
pub fn is_last_page(players: usize, limit: i64) -> (last: bool)
    ensures
        last == (players < limit),
{
    limit > 0 && (players as u64) < (limit as u64)
}

/// A ledger that is current is left alone: it has no pending days, so that
/// rolling it forward writes nothing.
pub proof fn lemma_current_ledger_is_left_alone(
    days: Seq<Date>,
    last_checkpoint: Date,
    tomorrow: Date,
)
    requires
        are_pending_days(days, last_checkpoint, tomorrow),
        is_current(last_checkpoint, tomorrow),
    ensures
        days.len() == 0,
{
}

/// A roll-forward that takes up where another has ended writes nothing:
/// the roll-forward of a ledger that was not current ends with the rows of
/// tomorrow, and with tomorrow as the last checkpoint nothing is pending.
/// When the search for the last checkpoint finds the rows of tomorrow is
/// said where a whole ledger is rolled forward.
pub proof fn lemma_rollforward_is_idempotent(
    first: Seq<Date>,
    second: Seq<Date>,
    last_checkpoint: Date,
    tomorrow: Date,
)
    requires
        are_pending_days(first, last_checkpoint, tomorrow),
        !is_current(last_checkpoint, tomorrow),
        are_pending_days(second, first.last(), tomorrow),
    ensures
        first.last() == tomorrow,
        second.len() == 0,
{
}

/// Counting days from a date goes forward: of two counts, the smaller
/// gives the earlier date, as long as every date on the way exists.
pub proof fn lemma_plus_days_increasing(start: Date, a: nat, b: nat)
    requires
        a < b,
        forall|k: nat| k <= b ==> (#[trigger] start.plus_days(k)).is_valid(),
    ensures
        start.plus_days(a).before(start.plus_days(b)),
    decreases b,
{
    let previous = start.plus_days((b - 1) as nat);
    assert(previous.is_valid());
    assert(start.plus_days(b) == previous.next());
    lemma_next_is_later(previous);
    if a < b - 1 {
        lemma_plus_days_increasing(start, a, (b - 1) as nat);
        lemma_before_is_total_order(start.plus_days(a), previous, start.plus_days(b));
    }
}

/// Roll-forward is complete: where tomorrow lies `n` days after the last
/// checkpoint, the plan holds, for each of these `n` days and for no
/// other, the amount of every record of the last checkpoint, unchanged,
/// under the record's user.
pub proof fn lemma_rollforward_is_complete(
    plan: Seq<DayRows>,
    records: Seq<OpeningBalance>,
    last: Date,
    tomorrow: Date,
    n: nat,
)
    requires
        rolls_forward(plan, records, last, tomorrow),
        n > 0,
        tomorrow == last.plus_days(n),
        forall|k: nat| k <= n ==> (#[trigger] last.plus_days(k)).is_valid(),
    ensures
        plan.len() == n,
        forall|k: int|
            0 <= k < n ==> (#[trigger] plan[k]).day == last.plus_days((k + 1) as nat)
                && plan[k].partition.holds(OPENING_BALANCE_TABLE_NAME@, plan[k].day)
                && carries_forward(plan[k].rows@, records, plan[k].day),
{
    let days = Seq::new(plan.len(), |k: int| plan[k].day);
    assert(last.plus_days(0) == last);
    lemma_plus_days_increasing(last, 0, n);
    assert(last.before(tomorrow));
    assert(days.len() > 0);
    let len = days.len();
    assert(days[len - 1] == last.plus_days(((len - 1) + 1) as nat));
    assert(last.plus_days(len) == tomorrow);
    assert forall|k: nat| k <= len implies (#[trigger] last.plus_days(k)).is_valid() by {
        if k > 0 {
            assert(days[k - 1] == last.plus_days(((k - 1) + 1) as nat));
            assert(days[k - 1].is_valid());
        }
    }
    if len < n {
        lemma_plus_days_increasing(last, len, n);
        lemma_before_is_total_order(tomorrow, tomorrow, tomorrow);
    } else if n < len {
        lemma_plus_days_increasing(last, n, len);
        lemma_before_is_total_order(tomorrow, tomorrow, tomorrow);
    }
    assert forall|k: int| 0 <= k < n implies (#[trigger] plan[k]).day == last.plus_days(
        (k + 1) as nat,
    ) && plan[k].partition.holds(OPENING_BALANCE_TABLE_NAME@, plan[k].day) && carries_forward(
        plan[k].rows@,
        records,
        plan[k].day,
    ) by {
        assert(days[k] == plan[k].day);
    }
}

} // verus!
