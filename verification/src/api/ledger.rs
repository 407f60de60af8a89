//! The ledger: a counter's value and its history agree, and no request
//! makes them disagree.

use crate::api::counter::{added, counter_of, destroyed, topped, updated, AddPayload, UpdatePayload};
use crate::api::counter_record;
use crate::api::counter_record::applied;
use crate::db::store::{history, holds, lemma_place, owns, without, Rows, StoreState};
use crate::db::{Counter, CounterRecord};
use vstd::prelude::*;

verus! {

/// A history read oldest record first is a chain: each record's step is the
/// distance from its `begin` to its `end`, and each record begins where the
/// one before it ended.
pub open spec fn chained(h: Seq<CounterRecord>) -> bool {
    &&& forall|k: int| 0 <= k < h.len() ==> (#[trigger] h[k]).sound()
    &&& forall|k: int| 0 < k < h.len() ==> (#[trigger] h[k]).begin == h[k - 1].end
}

/// A history ends at the counter's value: the newest record's `end` is the
/// value. A counter that was never changed has no history to agree with.
pub open spec fn settles(h: Seq<CounterRecord>, value: i32) -> bool {
    h.len() > 0 ==> h.last().end == value
}

/// The ledger's invariant: the history of every counter is a chain that
/// ends at the counter's value, and every record belongs to a counter that
/// exists.
pub open spec fn consistent(rows: Rows) -> bool {
    &&& forall|i: int|
        0 <= i < rows.counters.len() ==> chained(
            history(rows.records, (#[trigger] rows.counters[i]).id),
        ) && settles(history(rows.records, rows.counters[i].id), rows.counters[i].value)
    &&& forall|k: int|
        0 <= k < rows.records.len() ==> holds(rows.counters, (#[trigger] rows.records[k]).counter_id)
}

/// A history grows by a record exactly when the record is the counter's.
pub proof fn lemma_history_push(rows: Seq<CounterRecord>, row: CounterRecord, counter_id: i32)
    ensures
        history(rows.push(row), counter_id) == if row.counter_id == counter_id {
            history(rows, counter_id).push(row)
        } else {
            history(rows, counter_id)
        },
{
    assert(rows.push(row).drop_last() =~= rows);
}

/// A counter of which the table holds no record has an empty history.
pub proof fn lemma_history_empty(rows: Seq<CounterRecord>, counter_id: i32)
    requires
        forall|k: int| 0 <= k < rows.len() ==> (#[trigger] rows[k]).counter_id != counter_id,
    ensures
        history(rows, counter_id).len() == 0,
    decreases rows.len(),
{
    if rows.len() > 0 {
        let front = rows.drop_last();
        assert forall|k: int| 0 <= k < front.len() implies (#[trigger] front[k]).counter_id
            != counter_id by {
            assert(front[k] == rows[k]);
        }
        lemma_history_empty(front, counter_id);
        assert(rows.last() == rows[rows.len() - 1]);
    }
}

/// Taking one counter's history out of the table empties that history and
/// leaves every other history as it was; what stays are records of other
/// counters that were there before.
pub proof fn lemma_without(rows: Seq<CounterRecord>, gone: i32, counter_id: i32)
    ensures
        history(without(rows, gone), gone).len() == 0,
        counter_id != gone ==> history(without(rows, gone), counter_id) == history(
            rows,
            counter_id,
        ),
        forall|k: int|
            0 <= k < without(rows, gone).len() ==> (#[trigger] without(rows, gone)[k]).counter_id
                != gone && rows.contains(without(rows, gone)[k]),
    decreases rows.len(),
{
    if rows.len() > 0 {
        let front = rows.drop_last();
        let last = rows.last();
        lemma_without(front, gone, counter_id);
        let kept = without(front, gone);
        assert forall|k: int| 0 <= k < kept.len() implies rows.contains(#[trigger] kept[k]) by {
            let j = choose|j: int| 0 <= j < front.len() && front[j] == kept[k];
            assert(rows[j] == kept[k]);
        }
        if last.counter_id != gone {
            lemma_history_push(kept, last, gone);
            lemma_history_push(kept, last, counter_id);
            assert(rows[rows.len() - 1] == last);
        }
    }
}

/// A change to one counter that keeps its id and its value keeps the ledger
/// consistent.
proof fn lemma_same_values_keep_ledger(rows: Rows, p: int, row: Counter)
    requires
        consistent(rows),
        0 <= p < rows.counters.len(),
        row.id == rows.counters[p].id,
        row.value == rows.counters[p].value,
    ensures
        consistent(Rows { counters: rows.counters.update(p, row), ..rows }),
{
    let after = rows.counters.update(p, row);
    assert forall|k: int| 0 <= k < rows.records.len() implies holds(
        after,
        (#[trigger] rows.records[k]).counter_id,
    ) by {
        let j = choose|j: int|
            0 <= j < rows.counters.len() && (#[trigger] rows.counters[j]).id
                == rows.records[k].counter_id;
        assert(after[j].id == rows.records[k].counter_id);
    }
    assert forall|i: int| 0 <= i < after.len() implies chained(
        history(rows.records, (#[trigger] after[i]).id),
    ) && settles(history(rows.records, after[i].id), after[i].value) by {
        assert(rows.counters[i].id == after[i].id);
    }
}

/// Changing a counter's name and stepping keeps the ledger consistent.
pub proof fn law_update_keeps_ledger(s: StoreState, id: i32, user_id: i32, payload: UpdatePayload)
    requires
        s.well_formed(),
        consistent(s.live),
    ensures
        consistent(updated(s, id, user_id, payload).0.live),
        updated(s, id, user_id, payload).0.live.records == s.live.records,
        updated(s, id, user_id, payload).0.live.counters.len() == s.live.counters.len(),
        forall|i: int|
            #![trigger updated(s, id, user_id, payload).0.live.counters[i]]
            0 <= i < s.live.counters.len() ==> {
                let was = s.live.counters[i];
                let is = updated(s, id, user_id, payload).0.live.counters[i];
                is.id == was.id && is.user_id == was.user_id && is.value == was.value
                    && is.sequence == was.sequence
            },
{
    if s.idle() && owns(s.live.counters, id, user_id) {
        let i = choose|i: int|
            0 <= i < s.live.counters.len() && (#[trigger] s.live.counters[i]).is_for(id, user_id);
        lemma_place(s.live.counters, id, i);
        lemma_same_values_keep_ledger(
            s.live,
            i,
            updated(s, id, user_id, payload).0.live.counters[i],
        );
    }
}

/// Bringing a counter to the top keeps the ledger consistent.
pub proof fn law_top_keeps_ledger(s: StoreState, id: i32, user_id: i32)
    requires
        s.well_formed(),
        consistent(s.live),
    ensures
        consistent(topped(s, id, user_id).0.live),
        topped(s, id, user_id).0.live.records == s.live.records,
{
    if topped(s, id, user_id).1 is Ok {
        let i = choose|i: int|
            0 <= i < s.live.counters.len() && (#[trigger] s.live.counters[i]).is_for(id, user_id);
        lemma_place(s.live.counters, id, i);
        lemma_same_values_keep_ledger(s.live, i, topped(s, id, user_id).0.live.counters[i]);
    }
}

/// Adding a counter keeps the ledger consistent: the new counter starts
/// with an empty history.
pub proof fn law_add_keeps_ledger(s: StoreState, user_id: i32, payload: AddPayload)
    requires
        s.well_formed(),
        consistent(s.live),
    ensures
        consistent(added(s, user_id, payload).0.live),
        added(s, user_id, payload).1 matches Ok(row) ==> history(s.live.records, row.id).len() == 0,
{
    if let Ok(row) = added(s, user_id, payload).1 {
        let rows = s.live;
        let after = rows.counters.push(row);
        assert forall|k: int| 0 <= k < rows.records.len() implies (
        #[trigger] rows.records[k]).counter_id != row.id && holds(
            after,
            rows.records[k].counter_id,
        ) by {
            let j = choose|j: int|
                0 <= j < rows.counters.len() && (#[trigger] rows.counters[j]).id
                    == rows.records[k].counter_id;
            assert(after[j].id == rows.records[k].counter_id);
            assert(j == rows.counters.len() - 1 || rows.counters[j].id < rows.counters.last().id);
        }
        lemma_history_empty(rows.records, row.id);
        assert forall|i: int| 0 <= i < after.len() implies chained(
            history(rows.records, (#[trigger] after[i]).id),
        ) && settles(history(rows.records, after[i].id), after[i].value) by {
            if i < rows.counters.len() {
                assert(rows.counters[i] == after[i]);
            }
        }
    }
}

/// Removing a counter keeps the ledger consistent: its history goes with
/// it, so that no record is left without its counter.
pub proof fn law_destroy_keeps_ledger(s: StoreState, id: i32, user_id: i32)
    requires
        s.well_formed(),
        consistent(s.live),
    ensures
        consistent(destroyed(s, id, user_id).0.live),
        destroyed(s, id, user_id).1 is Ok ==> !holds(destroyed(s, id, user_id).0.live.counters, id)
            && history(destroyed(s, id, user_id).0.live.records, id).len() == 0,
{
    if destroyed(s, id, user_id).1 is Ok {
        let rows = s.live;
        let p = choose|i: int|
            0 <= i < rows.counters.len() && (#[trigger] rows.counters[i]).is_for(id, user_id);
        lemma_place(rows.counters, id, p);
        let counters = rows.counters.remove(p);
        let records = without(rows.records, id);
        lemma_without(rows.records, id, id);
        assert forall|i: int| 0 <= i < counters.len() implies (#[trigger] counters[i]).id != id
            && chained(history(records, counters[i].id)) && settles(
            history(records, counters[i].id),
            counters[i].value,
        ) by {
            let j = if i < p {
                i
            } else {
                i + 1
            };
            assert(counters[i] == rows.counters[j]);
            assert(rows.counters[j].id != rows.counters[p].id);
            lemma_without(rows.records, id, counters[i].id);
        }
        if holds(counters, id) {
            let i = choose|i: int| 0 <= i < counters.len() && (#[trigger] counters[i]).id == id;
            assert(false);
        }
        assert forall|k: int| 0 <= k < records.len() implies holds(
            counters,
            (#[trigger] records[k]).counter_id,
        ) by {
            let m = choose|m: int| 0 <= m < rows.records.len() && rows.records[m] == records[k];
            let j = choose|j: int|
                0 <= j < rows.counters.len() && (#[trigger] rows.counters[j]).id
                    == rows.records[m].counter_id;
            assert(j != p);
            if j < p {
                assert(counters[j].id == records[k].counter_id);
            } else {
                assert(counters[j - 1].id == records[k].counter_id);
            }
        }
    }
}

/// Changing a counter's value keeps the ledger consistent: the new record
/// begins at the old value and ends at the new one, which is the old value
/// plus the step.
pub proof fn law_apply_keeps_ledger(s: StoreState, user_id: i32, payload: counter_record::AddPayload)
    requires
        s.well_formed(),
        consistent(s.live),
    ensures
        consistent(applied(s, user_id, payload).0.live),
        applied(s, user_id, payload).1 is Ok ==> {
            let t = applied(s, user_id, payload).0;
            let id = payload.counter_id;
            &&& owns(t.live.counters, id, user_id)
            &&& counter_of(t, id).value == counter_of(s, id).value + payload.step
            &&& history(t.live.records, id) == history(s.live.records, id).push(t.live.records.last())
            &&& t.live.records.last().begin == counter_of(s, id).value
            &&& t.live.records.last().end == counter_of(t, id).value
            &&& t.live.records.last().step == payload.step
        },
{
    if applied(s, user_id, payload).1 is Ok {
        let id = payload.counter_id;
        let rows = s.live;
        let t = applied(s, user_id, payload).0;
        let p = choose|i: int|
            0 <= i < rows.counters.len() && (#[trigger] rows.counters[i]).is_for(id, user_id);
        lemma_place(rows.counters, id, p);
        let record = t.live.records.last();
        let counters = t.live.counters;
        assert(counters[p].is_for(id, user_id));
        lemma_place(counters, id, p);
        assert forall|k: int| 0 <= k < t.live.records.len() implies holds(
            counters,
            (#[trigger] t.live.records[k]).counter_id,
        ) by {
            if k < rows.records.len() {
                let j = choose|j: int|
                    0 <= j < rows.counters.len() && (#[trigger] rows.counters[j]).id
                        == rows.records[k].counter_id;
                assert(counters[j].id == rows.records[k].counter_id);
            } else {
                assert(counters[p].id == record.counter_id);
            }
        }
        assert forall|i: int| 0 <= i < counters.len() implies chained(
            history(t.live.records, (#[trigger] counters[i]).id),
        ) && settles(history(t.live.records, counters[i].id), counters[i].value) by {
            lemma_history_push(rows.records, record, counters[i].id);
            assert(rows.counters[i].id == counters[i].id);
            if i != p {
                assert(rows.counters[i].id != rows.counters[p].id);
            } else {
                let h = history(rows.records, id);
                assert(settles(h, rows.counters[p].value));
                assert(chained(h));
                let grown = h.push(record);
                assert forall|k: int| 0 < k < grown.len() implies (#[trigger] grown[k]).begin
                    == grown[k - 1].end by {
                    if k < h.len() {
                        assert(grown[k] == h[k]);
                    }
                }
            }
        }
        lemma_history_push(rows.records, record, id);
    }
}

/// The sum of a run of steps.
pub open spec fn total(steps: Seq<i32>) -> int
    decreases steps.len(),
{
    if steps.len() == 0 {
        0
    } else {
        total(steps.drop_last()) + steps.last()
    }
}

/// One change of value: the store after it, and whether it was made.
#[verifier::opaque]
pub open spec fn change(s: StoreState, user_id: i32, id: i32, step: i32) -> (StoreState, bool) {
    let end = applied(s, user_id, counter_record::AddPayload { counter_id: id, step });
    (end.0, end.1 is Ok)
}

/// The store after a user has changed the value of the counter `id` by each
/// of `steps` in turn.
pub open spec fn applied_all(s: StoreState, user_id: i32, id: i32, steps: Seq<i32>) -> StoreState
    decreases steps.len(),
{
    if steps.len() == 0 {
        s
    } else {
        change(applied_all(s, user_id, id, steps.drop_last()), user_id, id, steps.last()).0
    }
}

/// Whether each of those changes was made: none was refused for want of
/// room in the store's integers.
pub open spec fn all_applied(s: StoreState, user_id: i32, id: i32, steps: Seq<i32>) -> bool
    decreases steps.len(),
{
    steps.len() == 0 || (all_applied(s, user_id, id, steps.drop_last()) && change(
        applied_all(s, user_id, id, steps.drop_last()),
        user_id,
        id,
        steps.last(),
    ).1)
}

/// The records that a run of changes has added to a counter's history,
/// oldest first.
pub open spec fn fresh(s: StoreState, t: StoreState, id: i32) -> Seq<CounterRecord> {
    history(t.live.records, id).skip(history(s.live.records, id).len() as int)
}

/// One change that was made: the value has moved by the step, and the
/// history has grown by the record of that move.
pub proof fn lemma_change(s: StoreState, user_id: i32, id: i32, step: i32)
    requires
        s.well_formed(),
        s.idle(),
        owns(s.live.counters, id, user_id),
        change(s, user_id, id, step).1,
    ensures
        ({
            let t = change(s, user_id, id, step).0;
            let record = t.live.records.last();
            &&& t.well_formed()
            &&& t.idle()
            &&& owns(t.live.counters, id, user_id)
            &&& counter_of(t, id).value == counter_of(s, id).value + step
            &&& history(t.live.records, id) == history(s.live.records, id).push(record)
            &&& record.begin == counter_of(s, id).value
            &&& record.end == counter_of(s, id).value + step
            &&& record.step == step
            &&& consistent(s.live) ==> consistent(t.live)
        }),
{
    reveal(change);
    let payload = counter_record::AddPayload { counter_id: id, step };
    let t = applied(s, user_id, payload).0;
    let p = choose|i: int|
        0 <= i < s.live.counters.len() && (#[trigger] s.live.counters[i]).is_for(id, user_id);
    lemma_place(s.live.counters, id, p);
    assert(t.live.counters[p].is_for(id, user_id));
    lemma_place(t.live.counters, id, p);
    lemma_history_push(s.live.records, t.live.records.last(), id);
    if consistent(s.live) {
        law_apply_keeps_ledger(s, user_id, payload);
    }
}

/// The sum of a run grows by each step.
proof fn lemma_total_take(steps: Seq<i32>, k: int)
    requires
        0 <= k < steps.len(),
    ensures
        total(steps.take(k + 1)) == total(steps.take(k)) + steps[k],
{
    assert(steps.take(k + 1).drop_last() =~= steps.take(k));
}

/// Ledger consistency. After any run of changes to a counter whose value
/// was `v`, the value is `v` plus the sum of the steps. The history has
/// grown by one record for each step, in order; the first begins at `v`,
/// each later one begins where the one before it ended, each ends its own
/// step further, and the last ends at the counter's value. Whoever folds
/// the history from oldest to newest arrives at the value.
pub proof fn law_ledger_consistency(s: StoreState, user_id: i32, id: i32, steps: Seq<i32>)
    requires
        s.well_formed(),
        s.idle(),
        owns(s.live.counters, id, user_id),
        all_applied(s, user_id, id, steps),
    ensures
        ({
            let t = applied_all(s, user_id, id, steps);
            let v = counter_of(s, id).value;
            let new = fresh(s, t, id);
            &&& t.well_formed()
            &&& t.idle()
            &&& owns(t.live.counters, id, user_id)
            &&& counter_of(t, id).value == v + total(steps)
            &&& history(t.live.records, id) == history(s.live.records, id) + new
            &&& new.len() == steps.len()
            &&& forall|k: int|
                0 <= k < new.len() ==> {
                    &&& (#[trigger] new[k]).step == steps[k]
                    &&& new[k].begin == v + total(steps.take(k))
                    &&& new[k].end == new[k].begin + steps[k]
                }
            &&& forall|k: int| 0 < k < new.len() ==> (#[trigger] new[k]).begin == new[k - 1].end
            &&& new.len() > 0 ==> new[0].begin == v && new.last().end == counter_of(t, id).value
            &&& consistent(s.live) ==> consistent(t.live)
        }),
    decreases steps.len(),
{
    let v = counter_of(s, id).value;
    let old_history = history(s.live.records, id);
    if steps.len() == 0 {
        assert(fresh(s, s, id) =~= Seq::<CounterRecord>::empty());
        assert(old_history + Seq::<CounterRecord>::empty() =~= old_history);
    } else {
        let n = steps.len() - 1;
        let front = steps.drop_last();
        let m = applied_all(s, user_id, id, front);
        law_ledger_consistency(s, user_id, id, front);
        lemma_change(m, user_id, id, steps.last());
        let t = applied_all(s, user_id, id, steps);
        let record = t.live.records.last();
        let before = fresh(s, m, id);
        let new = fresh(s, t, id);
        assert(history(t.live.records, id) =~= (old_history + before).push(record));
        assert(new =~= before.push(record));
        assert(history(t.live.records, id) =~= old_history + new);
        assert(front =~= steps.take(n));
        assert(steps.take(n + 1) =~= steps);
        assert forall|k: int| 0 <= k < new.len() implies {
            &&& (#[trigger] new[k]).step == steps[k]
            &&& new[k].begin == v + total(steps.take(k))
            &&& new[k].end == new[k].begin + steps[k]
        } by {
            if k < n {
                assert(new[k] == before[k]);
                assert(front.take(k) =~= steps.take(k));
            }
        }
        assert forall|k: int| 0 < k < new.len() implies (#[trigger] new[k]).begin == new[k
            - 1].end by {
            lemma_total_take(steps, k - 1);
        }
    }
}

} // verus!
