//! What the requests guarantee, whatever the store holds.
//!
//! Each law is stated over the functions that the contracts of the requests
//! use, and proved for every store whose tables hold no id twice.

use crate::api::counter::{
    added, added_counter, counter_of, destroyed, guarded_lookup, lemma_added, lemma_destroyed,
    lemma_listed, lemma_shown, lemma_topped, lemma_updated, topped, updated, AddPayload,
    UpdatePayload,
};
use crate::api::counter_record;
use crate::api::counter_record::{applied, guarded_history, lemma_applied, lemma_history_listed};
use crate::api::exchange::{served, Request};
use crate::api::ledger::{lemma_history_push, lemma_without};
use crate::api::decimal::{decimal_of, law_decimal_round_trip};
use crate::api::jwt::{resolved, AuthError, ClaimSet, Uid};
use crate::api::ApiErrorView;
use crate::db::store::{
    counters_ascend, history, holds, lemma_place, owns, place, ranked, slot, top_sequence,
    StoreState,
};
use crate::db::Counter;
use vstd::prelude::*;

verus! {

/// A user has a counter only if a row says so: no user has a counter whose
/// row names another user.
pub proof fn lemma_owner_is_unique(rows: Seq<Counter>, i: int, other: i32)
    requires
        counters_ascend(rows),
        0 <= i < rows.len(),
        rows[i].user_id != other,
    ensures
        !owns(rows, rows[i].id, other),
{
    if owns(rows, rows[i].id, other) {
        let j = choose|j: int| 0 <= j < rows.len() && (#[trigger] rows[j]).is_for(rows[i].id, other);
        lemma_place(rows, rows[i].id, i);
        lemma_place(rows, rows[i].id, j);
    }
}

/// Ownership isolation. A counter that belongs to one user does not exist
/// for any other: looked up by another user it is not found, and every
/// request of another user that names it ends in the same `NotFound` and
/// leaves the store as it was.
pub proof fn law_ownership_isolation(
    s: StoreState,
    i: int,
    other: i32,
    change: UpdatePayload,
    step: i32,
)
    requires
        s.well_formed(),
        s.idle(),
        0 <= i < s.live.counters.len(),
        s.live.counters[i].user_id != other,
    ensures
        guarded_lookup(s, s.live.counters[i].id, other) == Err::<Counter, _>(ApiErrorView::NotFound),
        guarded_history(s, s.live.counters[i].id, other) == Err::<Seq<crate::db::CounterRecord>, _>(
            ApiErrorView::NotFound,
        ),
        updated(s, s.live.counters[i].id, other, change) == (s, Err::<(), _>(ApiErrorView::NotFound)),
        destroyed(s, s.live.counters[i].id, other) == (s, Err::<(), _>(ApiErrorView::NotFound)),
        topped(s, s.live.counters[i].id, other) == (s, Err::<(), _>(ApiErrorView::NotFound)),
        applied(
            s,
            other,
            counter_record::AddPayload { counter_id: s.live.counters[i].id, step },
        ) == (s, Err::<(), _>(ApiErrorView::NotFound)),
{
    lemma_owner_is_unique(s.live.counters, i, other);
}

/// The auth boundary, as far as it is this library's. A token whose claims
/// were accepted and whose subject is a user's id in decimal names that
/// user and nobody else; and a caller so named is shown no counter of
/// another user. That a token is accepted only if it was signed with the
/// service's secret and has not expired is the doing of the code that
/// checks signatures.
pub proof fn law_token_does_not_cross_owners(s: StoreState, i: int, claims: ClaimSet, bearer: i32)
    requires
        s.well_formed(),
        0 <= i < s.live.counters.len(),
        s.live.counters[i].user_id != bearer,
        claims.sub matches Some(sub) && sub@ == decimal_of(bearer as int),
        claims.exp matches Some(exp) && exp <= usize::MAX,
    ensures
        resolved(Ok(claims)) == Ok::<_, AuthError>(Uid(bearer)),
        guarded_lookup(s, s.live.counters[i].id, bearer) == Err::<Counter, _>(
            ApiErrorView::NotFound,
        ),
{
    law_decimal_round_trip(bearer);
    lemma_owner_is_unique(s.live.counters, i, bearer);
}

/// What the lookup gives is the caller's: a counter found for a user is a
/// row of the table that names that user and has the id asked for.
pub proof fn law_lookup_is_scoped(s: StoreState, id: i32, user_id: i32)
    requires
        s.well_formed(),
    ensures
        guarded_lookup(s, id, user_id) matches Ok(row) ==> row.is_for(id, user_id)
            && s.live.counters.contains(row),
{
    if owns(s.live.counters, id, user_id) {
        let i = choose|i: int|
            0 <= i < s.live.counters.len() && (#[trigger] s.live.counters[i]).is_for(id, user_id);
        lemma_place(s.live.counters, id, i);
    }
}

/// The highest sequence among a user's counters is the sequence of one of
/// them, and none of them has a higher one; there is none exactly when the
/// user has no counter.
pub proof fn lemma_top_sequence(rows: Seq<Counter>, user_id: i32)
    ensures
        top_sequence(rows, user_id) is None ==> forall|i: int|
            0 <= i < rows.len() ==> (#[trigger] rows[i]).user_id != user_id,
        top_sequence(rows, user_id) matches Some(best) ==> {
            &&& forall|i: int|
                0 <= i < rows.len() && (#[trigger] rows[i]).user_id == user_id ==> rows[i].sequence
                    <= best
            &&& exists|i: int|
                0 <= i < rows.len() && (#[trigger] rows[i]).user_id == user_id && rows[i].sequence
                    == best
        },
    decreases rows.len(),
{
    if rows.len() > 0 {
        let front = rows.drop_last();
        lemma_top_sequence(front, user_id);
        assert forall|i: int| 0 <= i < front.len() implies front[i] == rows[i] by {}
        match top_sequence(rows, user_id) {
            None => {
                assert forall|i: int| 0 <= i < rows.len() implies (#[trigger] rows[i]).user_id
                    != user_id by {
                    if i < front.len() {
                        assert(front[i].user_id != user_id);
                    }
                }
            },
            Some(best) => {
                assert forall|i: int|
                    0 <= i < rows.len() && (#[trigger] rows[i]).user_id == user_id implies rows[i].sequence
                    <= best by {
                    if i < front.len() {
                        assert(front[i].user_id == user_id);
                    }
                }
                if rows.last().user_id == user_id && rows.last().sequence == best {
                    assert(rows[rows.len() - 1].sequence == best);
                } else {
                    let j = choose|j: int|
                        0 <= j < front.len() && (#[trigger] front[j]).user_id == user_id
                            && front[j].sequence == best;
                    assert(rows[j].user_id == user_id && rows[j].sequence == best);
                }
            },
        }
    }
}

/// Sequence monotonicity. When a counter has been brought to the top, its
/// sequence is strictly the highest among its owner's counters, and every
/// other counter is as it was.
pub proof fn law_top_is_highest(s: StoreState, id: i32, user_id: i32, j: int)
    requires
        s.well_formed(),
        topped(s, id, user_id).1 is Ok,
        0 <= j < s.live.counters.len(),
        j != place(s.live.counters, id),
    ensures
        owns(topped(s, id, user_id).0.live.counters, id, user_id),
        topped(s, id, user_id).0.live.counters.len() == s.live.counters.len(),
        topped(s, id, user_id).0.live.counters[j] == s.live.counters[j],
        s.live.counters[j].user_id == user_id ==> s.live.counters[j].sequence < counter_of(
            topped(s, id, user_id).0,
            id,
        ).sequence,
{
    let rows = s.live.counters;
    let i = choose|i: int| 0 <= i < rows.len() && (#[trigger] rows[i]).is_for(id, user_id);
    lemma_place(rows, id, i);
    lemma_top_sequence(rows, user_id);
    let after = topped(s, id, user_id).0.live.counters;
    assert(after[i].is_for(id, user_id));
    lemma_place(after, id, i);
}

/// A new counter stands at the top: its sequence is strictly higher than
/// that of every counter its owner had, and 1 if the owner had none.
pub proof fn law_new_counter_is_highest(s: StoreState, user_id: i32, payload: AddPayload, j: int)
    requires
        s.well_formed(),
        added(s, user_id, payload).1 is Ok,
        0 <= j < s.live.counters.len(),
    ensures
        added(s, user_id, payload).1 == Ok::<_, ApiErrorView>(added_counter(s, user_id, payload)),
        added(s, user_id, payload).0.live.counters == s.live.counters.push(
            added_counter(s, user_id, payload),
        ),
        s.live.counters[j].user_id == user_id ==> s.live.counters[j].sequence < added_counter(
            s,
            user_id,
            payload,
        ).sequence,
        !owns_any(s.live.counters, user_id) ==> added_counter(s, user_id, payload).sequence == 1,
        !holds(s.live.counters, added_counter(s, user_id, payload).id),
{
    lemma_top_sequence(s.live.counters, user_id);
    let row = added_counter(s, user_id, payload);
    if holds(s.live.counters, row.id) {
        let k = choose|k: int| 0 <= k < s.live.counters.len() && (#[trigger] s.live.counters[k]).id == row.id;
        assert(k == s.live.counters.len() - 1 || s.live.counters[k].id < s.live.counters.last().id);
    }
}

/// Whether a user has any counter.
pub open spec fn owns_any(rows: Seq<Counter>, user_id: i32) -> bool {
    exists|i: int| 0 <= i < rows.len() && (#[trigger] rows[i]).user_id == user_id
}

/// Whether `a` is shown before `b`: by higher sequence, and among equal
/// sequences by higher id.
pub open spec fn outranks(a: Counter, b: Counter) -> bool {
    a.sequence > b.sequence || (a.sequence == b.sequence && a.id > b.id)
}

/// Whether a list is in display order.
pub open spec fn in_display_order(list: Seq<Counter>) -> bool {
    forall|i: int, j: int| 0 <= i < j < list.len() ==> outranks(list[i], list[j])
}

/// A newcomer's slot is behind every row with a higher sequence and before
/// every other.
pub proof fn lemma_slot(list: Seq<Counter>, sequence: i32)
    ensures
        0 <= slot(list, sequence) <= list.len(),
        forall|i: int| 0 <= i < slot(list, sequence) ==> (#[trigger] list[i]).sequence > sequence,
        slot(list, sequence) < list.len() ==> list[slot(list, sequence)].sequence <= sequence,
    decreases list.len(),
{
    if list.len() > 0 && list[0].sequence > sequence {
        let rest = list.drop_first();
        lemma_slot(rest, sequence);
        assert forall|i: int| 0 <= i < slot(list, sequence) implies (#[trigger] list[i]).sequence
            > sequence by {
            if i > 0 {
                assert(rest[i - 1] == list[i]);
            }
        }
        if slot(list, sequence) < list.len() {
            assert(rest[slot(rest, sequence)] == list[slot(list, sequence)]);
        }
    }
}

/// The list of a user's counters is in display order, holds every counter
/// of the user's, and holds nothing else. There is one such list, since
/// display order puts no row twice.
pub proof fn law_list_is_ordered_and_complete(rows: Seq<Counter>, user_id: i32)
    requires
        counters_ascend(rows),
    ensures
        in_display_order(ranked(rows, user_id)),
        forall|k: int|
            0 <= k < ranked(rows, user_id).len() ==> (#[trigger] ranked(rows, user_id)[k]).user_id
                == user_id && rows.contains(ranked(rows, user_id)[k]),
        forall|i: int|
            0 <= i < rows.len() && (#[trigger] rows[i]).user_id == user_id ==> ranked(
                rows,
                user_id,
            ).contains(rows[i]),
    decreases rows.len(),
{
    if rows.len() > 0 {
        let front = rows.drop_last();
        let row = rows.last();
        law_list_is_ordered_and_complete(front, user_id);
        let before = ranked(front, user_id);
        let list = ranked(rows, user_id);
        assert forall|k: int| 0 <= k < before.len() implies rows.contains(#[trigger] before[k])
            && before[k].id < row.id by {
            let j = choose|j: int| 0 <= j < front.len() && front[j] == before[k];
            assert(rows[j] == before[k]);
        }
        if row.user_id == user_id {
            let p = slot(before, row.sequence);
            lemma_slot(before, row.sequence);
            assert(list == before.insert(p, row));
            assert(rows[rows.len() - 1] == row);
            assert forall|i: int, j: int| 0 <= i < j < list.len() implies outranks(
                list[i],
                list[j],
            ) by {
                if j < p {
                    assert(list[i] == before[i] && list[j] == before[j]);
                } else if j == p {
                    assert(list[i] == before[i]);
                } else if i < p {
                    assert(list[i] == before[i] && list[j] == before[j - 1]);
                } else if i == p {
                    assert(list[j] == before[j - 1]);
                    if j - 1 > p {
                        assert(outranks(before[p], before[j - 1]));
                    }
                } else {
                    assert(list[i] == before[i - 1] && list[j] == before[j - 1]);
                }
            }
            assert forall|k: int| 0 <= k < list.len() implies (#[trigger] list[k]).user_id
                == user_id && rows.contains(list[k]) by {
                if k < p {
                    assert(list[k] == before[k]);
                } else if k > p {
                    assert(list[k] == before[k - 1]);
                }
            }
            assert forall|i: int|
                0 <= i < rows.len() && (#[trigger] rows[i]).user_id == user_id implies list.contains(
                rows[i],
            ) by {
                if i < front.len() {
                    assert(front[i] == rows[i]);
                    let k = choose|k: int| 0 <= k < before.len() && before[k] == front[i];
                    if k < p {
                        assert(list[k] == rows[i]);
                    } else {
                        assert(list[k + 1] == rows[i]);
                    }
                } else {
                    assert(list[p] == rows[i]);
                }
            }
        } else {
            assert forall|i: int|
                0 <= i < rows.len() && (#[trigger] rows[i]).user_id == user_id implies before.contains(
                rows[i],
            ) by {
                assert(front[i] == rows[i]);
            }
        }
    }
}

/// Whether every counter that both tables hold has the same owner in both.
pub open spec fn same_owners(before: Seq<Counter>, after: Seq<Counter>) -> bool {
    forall|i: int, j: int|
        0 <= i < before.len() && 0 <= j < after.len() && (#[trigger] before[i]).id == (
        #[trigger] after[j]).id ==> before[i].user_id == after[j].user_id
}

/// A counter's owner never changes: no request gives a counter to another
/// user.
pub proof fn law_owner_is_immutable(
    s: StoreState,
    id: i32,
    user_id: i32,
    new: AddPayload,
    change: UpdatePayload,
    step: i32,
)
    requires
        s.well_formed(),
    ensures
        same_owners(s.live.counters, added(s, user_id, new).0.live.counters),
        same_owners(s.live.counters, updated(s, id, user_id, change).0.live.counters),
        same_owners(s.live.counters, topped(s, id, user_id).0.live.counters),
        same_owners(s.live.counters, destroyed(s, id, user_id).0.live.counters),
        same_owners(
            s.live.counters,
            applied(s, user_id, counter_record::AddPayload { counter_id: id, step }).0.live.counters,
        ),
{
    let rows = s.live.counters;
    assert(same_owners(rows, rows)) by {
        assert forall|i: int, j: int|
            0 <= i < rows.len() && 0 <= j < rows.len() && (#[trigger] rows[i]).id == (
            #[trigger] rows[j]).id implies rows[i].user_id == rows[j].user_id by {
            lemma_place(rows, rows[i].id, i);
            lemma_place(rows, rows[i].id, j);
        }
    }
    if added(s, user_id, new).1 is Ok {
        let after = added(s, user_id, new).0.live.counters;
        assert forall|i: int, j: int|
            0 <= i < rows.len() && 0 <= j < after.len() && (#[trigger] rows[i]).id == (
            #[trigger] after[j]).id implies rows[i].user_id == after[j].user_id by {
            if j < rows.len() {
                assert(after[j] == rows[j]);
            } else {
                assert(i == rows.len() - 1 || rows[i].id < rows.last().id);
            }
        }
    }
    if owns(rows, id, user_id) {
        let p = choose|i: int| 0 <= i < rows.len() && (#[trigger] rows[i]).is_for(id, user_id);
        lemma_place(rows, id, p);
        if s.idle() {
            let after = destroyed(s, id, user_id).0.live.counters;
            assert forall|i: int, j: int|
                0 <= i < rows.len() && 0 <= j < after.len() && (#[trigger] rows[i]).id == (
                #[trigger] after[j]).id implies rows[i].user_id == after[j].user_id by {
                let k = if j < p {
                    j
                } else {
                    j + 1
                };
                assert(after[j] == rows[k]);
            }
        }
    }
}

/// Writes stay with their owner. Whatever a user asks for, every counter
/// of every other user is afterwards as it was, and so is its history.
pub proof fn law_requests_touch_only_the_callers(s: StoreState, request: Request, i: int)
    requires
        s.well_formed(),
        0 <= i < s.live.counters.len(),
        s.live.counters[i].user_id != request.owner_of(),
    ensures
        served(s, request).0.live.counters.contains(s.live.counters[i]),
        history(served(s, request).0.live.records, s.live.counters[i].id) == history(
            s.live.records,
            s.live.counters[i].id,
        ),
{
    let rows = s.live.counters;
    let row = rows[i];
    let t = served(s, request).0;
    let uid = request.owner_of();
    match request {
        Request::List { uid } => lemma_listed(s, uid),
        Request::Add { uid, payload } => lemma_added(s, uid, payload),
        Request::Show { uid, id } => lemma_shown(s, id, uid),
        Request::Update { uid, id, change } => lemma_updated(s, id, uid, change),
        Request::Destroy { uid, id } => lemma_destroyed(s, id, uid),
        Request::Top { uid, id } => lemma_topped(s, id, uid),
        Request::AddRecord { uid, delta } => lemma_applied(s, uid, delta),
        Request::ListRecords { uid, id } => lemma_history_listed(s, id, uid),
    }
    if t != s {
        match request.target_of() {
            None => {
                assert(t.live.counters[i] == row);
            },
            Some(id) => {
                let p = choose|p: int| 0 <= p < rows.len() && (#[trigger] rows[p]).is_for(id, uid);
                lemma_place(rows, id, p);
                assert(p != i);
                assert(row.id != id) by {
                    if row.id == id {
                        lemma_place(rows, id, i);
                    }
                }
                if request is Destroy {
                    lemma_without(s.live.records, id, row.id);
                    if i < p {
                        assert(t.live.counters[i] == row);
                    } else {
                        assert(t.live.counters[i - 1] == row);
                    }
                } else {
                    assert(t.live.counters[i] == row);
                    if request is AddRecord {
                        lemma_history_push(s.live.records, t.live.records.last(), row.id);
                    }
                }
            },
        }
    } else {
        assert(rows[i] == row);
    }
}

} // verus!
