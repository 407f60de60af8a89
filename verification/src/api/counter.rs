//! A user's counters: listing, adding, showing, changing, removing and
//! bringing to the top.

use crate::api::exchange::{
    outcome, overflow_message, serve, served, unexpected, Answer, AnswerView, Request, Verdict,
};
use crate::api::jwt::Uid;
use crate::api::laws::{in_display_order, law_list_is_ordered_and_complete, lemma_top_sequence};
use crate::api::{ApiError, ApiErrorView};
use crate::db::store::{
    full_message, lemma_place, nested_message, next_counter_id, owns, place, ranked,
    top_sequence, without, Rows, Store, StoreState,
};
use crate::db::Counter;
use vstd::prelude::*;

verus! {

/// What a caller sends to add a counter.
#[derive(Debug, PartialEq, Eq)]
pub struct AddPayload {
    pub name: String,
    pub value: i32,
    pub step: i32,
    pub input_step: bool,
}

/// What a caller sends to change a counter's name and stepping.
#[derive(Debug, PartialEq, Eq)]
pub struct UpdatePayload {
    pub name: String,
    pub step: i32,
    pub input_step: bool,
}

/// The error of a request that writes while a transaction is open already.
pub open spec fn busy() -> ApiErrorView {
    ApiErrorView::Internal(nested_message())
}

/// The caller's counter `id`, where [`owns`] says there is one.
pub open spec fn counter_of(s: StoreState, id: i32) -> Counter {
    s.live.counters[place(s.live.counters, id)]
}

/// The store with its counters replaced.
pub open spec fn with_counters(s: StoreState, counters: Seq<Counter>) -> StoreState {
    StoreState { live: Rows { counters, ..s.live }, ..s }
}

/// The sequence that puts a counter at the top of a user's list: one above
/// the highest that the user's counters have, and 1 for a user who has
/// none.
pub open spec fn next_sequence(s: StoreState, user_id: i32) -> int {
    match top_sequence(s.live.counters, user_id) {
        Some(best) => best + 1,
        None => 1,
    }
}

/// What bringing the counter `id` to the top of `user_id`'s list makes of
/// the store, and how the request ends.
pub open spec fn topped(s: StoreState, id: i32, user_id: i32) -> (
    StoreState,
    Result<(), ApiErrorView>,
) {
    if !s.idle() {
        (s, Err(busy()))
    } else if !owns(s.live.counters, id, user_id) {
        (s, Err(ApiErrorView::NotFound))
    } else {
        let sequence = next_sequence(s, user_id);
        if sequence > i32::MAX {
            (s, Err(ApiErrorView::Internal(overflow_message())))
        } else {
            (
                with_counters(
                    s,
                    s.live.counters.update(
                        place(s.live.counters, id),
                        Counter {
                            sequence: sequence as i32,
                            updated_at: s.clock,
                            ..counter_of(s, id)
                        },
                    ),
                ),
                Ok(()),
            )
        }
    }
}

/// A request's end that carries no answer, as the end of its conversation.
pub open spec fn emptied(end: Result<(), ApiErrorView>) -> Verdict {
    match end {
        Ok(()) => Ok(AnswerView::Empty),
        Err(error) => Err(error),
    }
}

/// A request's end that carries a counter, as the end of its conversation.
pub open spec fn countered(end: Result<Counter, ApiErrorView>) -> Verdict {
    match end {
        Ok(row) => Ok(AnswerView::Counter(row)),
        Err(error) => Err(error),
    }
}

/// The view of a request's end that carries no answer.
pub open spec fn settled(end: Result<(), ApiError>) -> Result<(), ApiErrorView> {
    match end {
        Ok(()) => Ok(()),
        Err(error) => Err(error@),
    }
}

/// The conversation that brings a counter to the top, held with a store in
/// memory, ends as [`topped`] says.
pub proof fn lemma_topped(s: StoreState, id: i32, user_id: i32)
    requires
        s.well_formed(),
    ensures
        served(s, Request::Top { uid: user_id, id }) == (
            topped(s, id, user_id).0,
            emptied(topped(s, id, user_id).1),
        ),
{
    reveal_with_fuel(outcome, 8);
    if s.idle() && owns(s.live.counters, id, user_id) {
        let i = choose|i: int|
            0 <= i < s.live.counters.len() && (#[trigger] s.live.counters[i]).is_for(id, user_id);
        lemma_place(s.live.counters, id, i);
        lemma_top_sequence(s.live.counters, user_id);
    }
    assert(served(s, Request::Top { uid: user_id, id }).0 == topped(s, id, user_id).0);
}

/// Brings the caller's counter `id` to the top of their list: gives it a
/// sequence one above the highest that any of the caller's counters has. No
/// other counter changes. A counter that the caller does not have is not
/// found, whoever else has it.
pub fn top(id: i32, uid: Uid, store: &mut Store) -> (end: Result<(), ApiError>)
    requires
        old(store)@.well_formed(),
    ensures
        final(store)@.well_formed(),
        (final(store)@, settled(end)) == topped(old(store)@, id, uid.0),
{
    proof {
        lemma_topped(store@, id, uid.0);
    }
    match serve(store, Request::Top { uid: uid.0, id }) {
        Ok(Answer::Empty) => Ok(()),
        Ok(_) => Err(unexpected()),
        Err(error) => Err(error),
    }
}

/// What looking up the counter `id` for `user_id` gives: the row, if that
/// user has that counter, and not found otherwise.
pub open spec fn guarded_lookup(s: StoreState, id: i32, user_id: i32) -> Result<
    Counter,
    ApiErrorView,
> {
    if owns(s.live.counters, id, user_id) {
        Ok(counter_of(s, id))
    } else {
        Err(ApiErrorView::NotFound)
    }
}

/// The view of a request's end that carries a counter.
pub open spec fn shown(end: Result<Counter, ApiError>) -> Result<Counter, ApiErrorView> {
    match end {
        Ok(row) => Ok(row),
        Err(error) => Err(error@),
    }
}

/// The conversation that shows a counter, held with a store in memory,
/// ends as [`guarded_lookup`] says and leaves the store as it was. What it
/// shows is the caller's.
pub proof fn lemma_shown(s: StoreState, id: i32, user_id: i32)
    requires
        s.well_formed(),
    ensures
        served(s, Request::Show { uid: user_id, id }) == (
            s,
            countered(guarded_lookup(s, id, user_id)),
        ),
        guarded_lookup(s, id, user_id) matches Ok(row) ==> row.is_for(id, user_id),
{
    reveal_with_fuel(outcome, 3);
    if owns(s.live.counters, id, user_id) {
        let i = choose|i: int|
            0 <= i < s.live.counters.len() && (#[trigger] s.live.counters[i]).is_for(id, user_id);
        lemma_place(s.live.counters, id, i);
    }
}

/// The ownership guard: the counter `id` of the user `user_id`. Whether the
/// counter does not exist or is another user's, the answer is the same
/// `NotFound`. The store is left as it was.
pub fn get_user_counter(id: i32, user_id: i32, store: &mut Store) -> (end: Result<
    Counter,
    ApiError,
>)
    requires
        old(store)@.well_formed(),
    ensures
        final(store)@ == old(store)@,
        shown(end) == guarded_lookup(old(store)@, id, user_id),
        end matches Ok(row) ==> row.is_for(id, user_id),
{
    proof {
        lemma_shown(store@, id, user_id);
    }
    match serve(store, Request::Show { uid: user_id, id }) {
        Ok(Answer::Counter(row)) => Ok(row),
        Ok(_) => Err(unexpected()),
        Err(error) => Err(error),
    }
}

/// The caller's counter `id`, through the ownership guard.
pub fn show(uid: Uid, store: &mut Store, id: i32) -> (end: Result<Counter, ApiError>)
    requires
        old(store)@.well_formed(),
    ensures
        final(store)@ == old(store)@,
        shown(end) == guarded_lookup(old(store)@, id, uid.0),
        end matches Ok(row) ==> row.is_for(id, uid.0),
{
    get_user_counter(id, uid.0, store)
}

/// The conversation that lists a user's counters, held with a store in
/// memory, gives the user's counters in display order and leaves the store
/// as it was.
pub proof fn lemma_listed(s: StoreState, user_id: i32)
    ensures
        served(s, Request::List { uid: user_id }) == (
            s,
            Ok::<_, ApiErrorView>(AnswerView::Counters(ranked(s.live.counters, user_id))),
        ),
{
    reveal_with_fuel(outcome, 3);
}

/// All of the caller's counters and no others, highest sequence first and,
/// among equal sequences, highest id first. The store is left as it was.
pub fn list(uid: Uid, store: &mut Store) -> (end: Result<Vec<Counter>, ApiError>)
    requires
        old(store)@.well_formed(),
    ensures
        final(store)@ == old(store)@,
        end matches Ok(rows) && rows@ == ranked(old(store)@.live.counters, uid.0),
        end matches Ok(rows) && in_display_order(rows@),
        end matches Ok(rows) && forall|k: int|
            0 <= k < rows@.len() ==> (#[trigger] rows@[k]).user_id == uid.0
                && old(store)@.live.counters.contains(rows@[k]),
        end matches Ok(rows) && forall|i: int|
            0 <= i < old(store)@.live.counters.len() && (
            #[trigger] old(store)@.live.counters[i]).user_id == uid.0 ==> rows@.contains(
                old(store)@.live.counters[i],
            ),
{
    proof {
        lemma_listed(store@, uid.0);
        law_list_is_ordered_and_complete(store@.live.counters, uid.0);
    }
    match serve(store, Request::List { uid: uid.0 }) {
        Ok(Answer::Counters(rows)) => Ok(rows),
        Ok(_) => Err(unexpected()),
        Err(error) => Err(error),
    }
}

/// The counter that [`add`] makes of a payload.
pub open spec fn added_counter(s: StoreState, user_id: i32, payload: AddPayload) -> Counter {
    Counter {
        id: next_counter_id(s.live.counters) as i32,
        user_id,
        name: payload.name,
        value: payload.value,
        step: payload.step,
        input_step: payload.input_step,
        sequence: next_sequence(s, user_id) as i32,
        created_at: s.clock,
        updated_at: s.clock,
    }
}

/// What adding a counter for `user_id` makes of the store, and how the
/// request ends.
pub open spec fn added(s: StoreState, user_id: i32, payload: AddPayload) -> (
    StoreState,
    Result<Counter, ApiErrorView>,
) {
    if !s.idle() {
        (s, Err(busy()))
    } else if next_sequence(s, user_id) > i32::MAX {
        (s, Err(ApiErrorView::Internal(overflow_message())))
    } else if next_counter_id(s.live.counters) > i32::MAX {
        (s, Err(ApiErrorView::Internal(full_message())))
    } else {
        let row = added_counter(s, user_id, payload);
        (with_counters(s, s.live.counters.push(row)), Ok(row))
    }
}

/// The conversation that adds a counter, held with a store in memory, ends
/// as [`added`] says.
pub proof fn lemma_added(s: StoreState, user_id: i32, payload: AddPayload)
    ensures
        served(s, Request::Add { uid: user_id, payload }) == (
            added(s, user_id, payload).0,
            countered(added(s, user_id, payload).1),
        ),
{
    reveal_with_fuel(outcome, 6);
    assert(served(s, Request::Add { uid: user_id, payload }).0 == added(s, user_id, payload).0);
}

/// Adds a counter for the caller, with the payload's name, value and
/// stepping, at the top of the caller's list, and gives the new row. Names
/// may repeat.
pub fn add(uid: Uid, store: &mut Store, payload: AddPayload) -> (end: Result<Counter, ApiError>)
    requires
        old(store)@.well_formed(),
    ensures
        final(store)@.well_formed(),
        (final(store)@, shown(end)) == added(old(store)@, uid.0, payload),
{
    proof {
        lemma_added(store@, uid.0, payload);
    }
    match serve(store, Request::Add { uid: uid.0, payload }) {
        Ok(Answer::Counter(row)) => Ok(row),
        Ok(_) => Err(unexpected()),
        Err(error) => Err(error),
    }
}

/// What changing the name and stepping of `user_id`'s counter `id` makes of
/// the store, and how the request ends.
pub open spec fn updated(s: StoreState, id: i32, user_id: i32, payload: UpdatePayload) -> (
    StoreState,
    Result<(), ApiErrorView>,
) {
    if !s.idle() {
        (s, Err(busy()))
    } else if !owns(s.live.counters, id, user_id) {
        (s, Err(ApiErrorView::NotFound))
    } else {
        (
            with_counters(
                s,
                s.live.counters.update(
                    place(s.live.counters, id),
                    Counter {
                        name: payload.name,
                        step: payload.step,
                        input_step: payload.input_step,
                        updated_at: s.clock,
                        ..counter_of(s, id)
                    },
                ),
            ),
            Ok(()),
        )
    }
}

/// The conversation that changes a counter's name and stepping, held with
/// a store in memory, ends as [`updated`] says.
pub proof fn lemma_updated(s: StoreState, id: i32, user_id: i32, payload: UpdatePayload)
    requires
        s.well_formed(),
    ensures
        served(s, Request::Update { uid: user_id, id, change: payload }) == (
            updated(s, id, user_id, payload).0,
            emptied(updated(s, id, user_id, payload).1),
        ),
{
    reveal_with_fuel(outcome, 6);
    if s.idle() && owns(s.live.counters, id, user_id) {
        let i = choose|i: int|
            0 <= i < s.live.counters.len() && (#[trigger] s.live.counters[i]).is_for(id, user_id);
        lemma_place(s.live.counters, id, i);
    }
    assert(served(s, Request::Update { uid: user_id, id, change: payload }).0 == updated(
        s,
        id,
        user_id,
        payload,
    ).0);
}

/// Gives the caller's counter `id` the payload's name and stepping. Its
/// value, its sequence and its history stay as they are, and so does every
/// other counter.
pub fn update(id: i32, uid: Uid, store: &mut Store, payload: UpdatePayload) -> (end: Result<
    (),
    ApiError,
>)
    requires
        old(store)@.well_formed(),
    ensures
        final(store)@.well_formed(),
        (final(store)@, settled(end)) == updated(old(store)@, id, uid.0, payload),
{
    proof {
        lemma_updated(store@, id, uid.0, payload);
    }
    match serve(store, Request::Update { uid: uid.0, id, change: payload }) {
        Ok(Answer::Empty) => Ok(()),
        Ok(_) => Err(unexpected()),
        Err(error) => Err(error),
    }
}

/// What removing `user_id`'s counter `id` makes of the store, and how the
/// request ends.
pub open spec fn destroyed(s: StoreState, id: i32, user_id: i32) -> (
    StoreState,
    Result<(), ApiErrorView>,
) {
    if !s.idle() {
        (s, Err(busy()))
    } else if !owns(s.live.counters, id, user_id) {
        (s, Err(ApiErrorView::NotFound))
    } else {
        (
            StoreState {
                live: Rows {
                    counters: s.live.counters.remove(place(s.live.counters, id)),
                    records: without(s.live.records, id),
                    ..s.live
                },
                ..s
            },
            Ok(()),
        )
    }
}

/// The conversation that removes a counter, held with a store in memory,
/// ends as [`destroyed`] says.
pub proof fn lemma_destroyed(s: StoreState, id: i32, user_id: i32)
    requires
        s.well_formed(),
    ensures
        served(s, Request::Destroy { uid: user_id, id }) == (
            destroyed(s, id, user_id).0,
            emptied(destroyed(s, id, user_id).1),
        ),
{
    reveal_with_fuel(outcome, 7);
    if s.idle() && owns(s.live.counters, id, user_id) {
        let i = choose|i: int|
            0 <= i < s.live.counters.len() && (#[trigger] s.live.counters[i]).is_for(id, user_id);
        lemma_place(s.live.counters, id, i);
    }
    assert(served(s, Request::Destroy { uid: user_id, id }).0 == destroyed(s, id, user_id).0);
}

/// Removes the caller's counter `id` together with its whole history.
pub fn destroy(uid: Uid, store: &mut Store, id: i32) -> (end: Result<(), ApiError>)
    requires
        old(store)@.well_formed(),
    ensures
        final(store)@.well_formed(),
        (final(store)@, settled(end)) == destroyed(old(store)@, id, uid.0),
{
    proof {
        lemma_destroyed(store@, id, uid.0);
    }
    match serve(store, Request::Destroy { uid: uid.0, id }) {
        Ok(Answer::Empty) => Ok(()),
        Ok(_) => Err(unexpected()),
        Err(error) => Err(error),
    }
}

} // verus!
