//! A counter's history: applying a change to the value, and listing the
//! changes made.

use crate::api::counter::{busy, counter_of, emptied, settled};
use crate::api::exchange::{
    ask, outcome, overflow_message, serve, served, unexpected, Answer, AnswerView, Request,
    StageView,
};
use crate::db::statement::Statement;
use crate::api::jwt::Uid;
use crate::api::{ApiError, ApiErrorView};
use crate::db::store::{
    full_message, history, lemma_place, next_record_id, owns, place, Rows, Store, StoreState,
};
use crate::db::{Counter, CounterRecord};
use vstd::prelude::*;

verus! {

/// What a caller sends to change a counter's value by `step`.
#[derive(Debug, PartialEq, Eq, Clone, Copy)]
pub struct AddPayload {
    pub counter_id: i32,
    pub step: i32,
}

/// The record that [`add`] writes for a change by `step` of a counter
/// whose value is `begin`.
pub open spec fn delta_record(s: StoreState, counter_id: i32, begin: i32, step: i32) -> CounterRecord {
    CounterRecord {
        id: next_record_id(s.live.records) as i32,
        counter_id,
        step,
        begin,
        end: (begin + step) as i32,
        created_at: s.clock,
        updated_at: s.clock,
    }
}

/// What changing the value of `user_id`'s counter by a step makes of the
/// store, and how the request ends.
pub open spec fn applied(s: StoreState, user_id: i32, payload: AddPayload) -> (
    StoreState,
    Result<(), ApiErrorView>,
) {
    let id = payload.counter_id;
    if !s.idle() {
        (s, Err(busy()))
    } else if !owns(s.live.counters, id, user_id) {
        (s, Err(ApiErrorView::NotFound))
    } else {
        let row = counter_of(s, id);
        let next = row.value + payload.step;
        if !(i32::MIN <= next <= i32::MAX) {
            (s, Err(ApiErrorView::Internal(overflow_message())))
        } else if next_record_id(s.live.records) > i32::MAX {
            (s, Err(ApiErrorView::Internal(full_message())))
        } else {
            (
                StoreState {
                    live: Rows {
                        counters: s.live.counters.update(
                            place(s.live.counters, id),
                            Counter { value: next as i32, updated_at: s.clock, ..row },
                        ),
                        records: s.live.records.push(delta_record(s, id, row.value, payload.step)),
                        ..s.live
                    },
                    ..s
                },
                Ok(()),
            )
        }
    }
}

/// The conversation that changes a counter's value, held with a store in
/// memory, ends as [`applied`] says.
pub proof fn lemma_applied(s: StoreState, user_id: i32, payload: AddPayload)
    requires
        s.well_formed(),
    ensures
        served(s, Request::AddRecord { uid: user_id, delta: payload }) == (
            applied(s, user_id, payload).0,
            emptied(applied(s, user_id, payload).1),
        ),
{
    let id = payload.counter_id;
    let request = Request::AddRecord { uid: user_id, delta: payload };
    if !s.idle() {
        reveal_with_fuel(outcome, 2);
    } else {
        let s1 = StoreState { saved: Some(s.live), ..s };
        let guard = ask(
            request,
            StageView::Guarding { id },
            Statement::CounterOfOwner { id, user_id },
        );
        assert(served(s, request) == outcome(s1, guard)) by {
            reveal_with_fuel(outcome, 2);
        }
        if !owns(s.live.counters, id, user_id) {
            assert(outcome(s1, guard) == (s, Err::<AnswerView, _>(ApiErrorView::NotFound))) by {
                reveal_with_fuel(outcome, 3);
            }
        } else {
            let i = choose|i: int|
                0 <= i < s.live.counters.len() && (#[trigger] s.live.counters[i]).is_for(id, user_id);
            lemma_place(s.live.counters, id, i);
            let row = counter_of(s, id);
            let next = row.value + payload.step;
            if !(i32::MIN <= next <= i32::MAX) {
                assert(outcome(s1, guard) == (
                    s,
                    Err::<AnswerView, _>(ApiErrorView::Internal(overflow_message())),
                )) by {
                    reveal_with_fuel(outcome, 3);
                }
            } else {
                let record = ask(
                    request,
                    StageView::Recording { id, next: next as i32 },
                    Statement::InsertRecord {
                        counter_id: id,
                        step: payload.step,
                        begin: row.value,
                        end: next as i32,
                    },
                );
                assert(outcome(s1, guard) == outcome(s1, record)) by {
                    reveal_with_fuel(outcome, 2);
                }
                if next_record_id(s.live.records) > i32::MAX {
                    assert(outcome(s1, record) == (
                        s,
                        Err::<AnswerView, _>(ApiErrorView::Internal(full_message())),
                    )) by {
                        reveal_with_fuel(outcome, 3);
                    }
                } else {
                    let s2 = StoreState {
                        live: Rows {
                            records: s.live.records.push(delta_record(s, id, row.value, payload.step)),
                            ..s.live
                        },
                        ..s1
                    };
                    let write = ask(
                        request,
                        StageView::Writing,
                        Statement::SetValue { id, value: next as i32 },
                    );
                    assert(outcome(s1, record) == outcome(s2, write)) by {
                        reveal_with_fuel(outcome, 2);
                    }
                    assert(outcome(s2, write) == (
                        applied(s, user_id, payload).0,
                        Ok::<_, ApiErrorView>(AnswerView::Empty),
                    )) by {
                        reveal_with_fuel(outcome, 4);
                    }
                }
            }
        }
    }
}

/// Changes the value of the caller's counter by the payload's step, which
/// may be negative, and writes the change into the counter's history: a
/// record from the old value to the new. Either both are written or neither.
pub fn add(uid: Uid, store: &mut Store, payload: AddPayload) -> (end: Result<(), ApiError>)
    requires
        old(store)@.well_formed(),
    ensures
        final(store)@.well_formed(),
        (final(store)@, settled(end)) == applied(old(store)@, uid.0, payload),
{
    proof {
        lemma_applied(store@, uid.0, payload);
    }
    match serve(store, Request::AddRecord { uid: uid.0, delta: payload }) {
        Ok(Answer::Empty) => Ok(()),
        Ok(_) => Err(unexpected()),
        Err(error) => Err(error),
    }
}

/// The history of `user_id`'s counter `id`, newest record first, if that
/// user has that counter, and not found otherwise.
pub open spec fn guarded_history(s: StoreState, id: i32, user_id: i32) -> Result<
    Seq<CounterRecord>,
    ApiErrorView,
> {
    if owns(s.live.counters, id, user_id) {
        Ok(history(s.live.records, id).reverse())
    } else {
        Err(ApiErrorView::NotFound)
    }
}

/// The conversation that lists a counter's history, held with a store in
/// memory, ends as [`guarded_history`] says and leaves the store as it was.
pub proof fn lemma_history_listed(s: StoreState, id: i32, user_id: i32)
    requires
        s.well_formed(),
    ensures
        served(s, Request::ListRecords { uid: user_id, id }) == (
            s,
            match guarded_history(s, id, user_id) {
                Ok(rows) => Ok(AnswerView::Records(rows)),
                Err(error) => Err(error),
            },
        ),
{
    reveal_with_fuel(outcome, 4);
    if owns(s.live.counters, id, user_id) {
        let i = choose|i: int|
            0 <= i < s.live.counters.len() && (#[trigger] s.live.counters[i]).is_for(id, user_id);
        lemma_place(s.live.counters, id, i);
    }
}

/// The view of a request's end that carries records.
pub open spec fn listing(end: Result<Vec<CounterRecord>, ApiError>) -> Result<
    Seq<CounterRecord>,
    ApiErrorView,
> {
    match end {
        Ok(rows) => Ok(rows@),
        Err(error) => Err(error@),
    }
}

/// The history of the caller's counter `id`, newest record first. The
/// history of a counter that the caller does not have is not found. The
/// store is left as it was.
pub fn list(uid: Uid, store: &mut Store, id: i32) -> (end: Result<Vec<CounterRecord>, ApiError>)
    requires
        old(store)@.well_formed(),
    ensures
        final(store)@ == old(store)@,
        listing(end) == guarded_history(old(store)@, id, uid.0),
{
    proof {
        lemma_history_listed(store@, id, uid.0);
    }
    match serve(store, Request::ListRecords { uid: uid.0, id }) {
        Ok(Answer::Records(rows)) => Ok(rows),
        Ok(_) => Err(unexpected()),
        Err(error) => Err(error),
    }
}

} // verus!
