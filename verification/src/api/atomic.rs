//! All or nothing: a request whose conversation with the store breaks off
//! leaves the store as it found it.

use crate::api::counter::{
    counter_of, lemma_added, lemma_destroyed, lemma_listed, lemma_shown, lemma_topped,
    lemma_updated,
};
use crate::api::counter_record::{lemma_applied, lemma_history_listed};
use crate::api::counter_record::AddPayload;
use crate::api::exchange::{
    after, opening, outcome, rank, served, unexpected_message, ExchangeView, Request, StageView,
    StepView, Verdict,
};
use crate::api::ApiErrorView;
use crate::db::statement::{ReplyView, Statement};
use crate::db::store::{effect, lemma_place, next_record_id, owns, StoreState};
use vstd::prelude::*;

verus! {

/// The end of a request that the store failed with `message`.
pub open spec fn broken(message: Seq<char>) -> Verdict {
    Err(ApiErrorView::Internal(message))
}

/// The conversation from `step` on, held with the store `s`, when the store
/// fails the statement that comes `k` statements from now, with `message`,
/// and does nothing for it. A rollback never fails: that is what the store
/// promises of transactions.
pub open spec fn faulted(s: StoreState, step: StepView, k: int, message: Seq<char>) -> (
    StoreState,
    Verdict,
)
    decreases rank(step),
{
    match step {
        StepView::Finish(end) => (s, end),
        StepView::Ask(x, statement) => {
            let (s2, reply) = if k == 0 && !(statement is Rollback) {
                (s, ReplyView::Failed(message))
            } else {
                effect(s, statement)
            };
            let next = after(x, reply);
            if rank(next) < rank(step) {
                faulted(s2, next, k - 1, message)
            } else {
                (s2, Err(ApiErrorView::Internal(unexpected_message())))
            }
        },
    }
}

/// A step of a request that writes, after its transaction was opened: the
/// transaction is closed by the statements that close it and by no other.
pub open spec fn in_flight(step: StepView) -> bool {
    match step {
        StepView::Finish(_) => true,
        StepView::Ask(x, statement) => x.request.writes() && match x.stage {
            StageView::Opening => false,
            StageView::Aborting { .. } => statement is Rollback,
            StageView::Committing { .. } => statement is Commit,
            _ => !(statement is Begin) && !(statement is Commit) && !(statement is Rollback),
        },
    }
}

/// Inside a transaction that was opened on the store `s`, a conversation
/// that is failed ends with the store as `s` was and with the store's
/// message; one that is not failed ends as it would have.
proof fn lemma_fault_in_flight(
    t: StoreState,
    s: StoreState,
    step: StepView,
    k: int,
    message: Seq<char>,
)
    requires
        s.idle(),
        t.saved == Some(s.live),
        t.clock == s.clock,
        in_flight(step),
        step is Ask,
    ensures
        faulted(t, step, k, message) == outcome(t, step) || faulted(t, step, k, message) == (
            s,
            broken(message),
        ),
    decreases rank(step),
{
    let x = step->Ask_0;
    let statement = step->Ask_1;
    if k == 0 && !(statement is Rollback) {
        let next = after(x, ReplyView::Failed(message));
        assert(next == StepView::Ask(
            ExchangeView {
                request: x.request,
                stage: StageView::Aborting { error: ApiErrorView::Internal(message) },
            },
            Statement::Rollback,
        ));
        assert(faulted(t, step, k, message) == faulted(t, next, k - 1, message));
        assert(faulted(t, next, k - 1, message) == (
            s,
            broken(message),
        )) by {
            reveal_with_fuel(faulted, 3);
        }
    } else {
        let (t2, reply) = effect(t, statement);
        let next = after(x, reply);
        assert(in_flight(next));
        assert(rank(next) < rank(step));
        assert(faulted(t, step, k, message) == faulted(t2, next, k - 1, message));
        assert(outcome(t, step) == outcome(t2, next));
        if next is Ask {
            assert(t2.saved == Some(s.live) && t2.clock == s.clock);
            lemma_fault_in_flight(t2, s, next, k - 1, message);
        }
    }
}

/// Atomicity. Whichever statement of a request the store fails, the request
/// ends with the store exactly as it was before the request, and with the
/// store's message as its error; where the store fails none, the request is
/// served. No request leaves a part of its writes behind.
pub proof fn law_atomicity(s: StoreState, request: Request, k: int, message: Seq<char>)
    requires
        s.well_formed(),
        s.idle(),
    ensures
        faulted(s, opening(request), k, message) == served(s, request) || faulted(
            s,
            opening(request),
            k,
            message,
        ) == (s, broken(message)),
{
    let step = opening(request);
    if request.writes() {
        if k == 0 {
            reveal_with_fuel(faulted, 2);
        } else {
            let x = step->Ask_0;
    let statement = step->Ask_1;
            let (t, reply) = effect(s, statement);
            let next = after(x, reply);
            assert(faulted(s, step, k, message) == faulted(t, next, k - 1, message));
            assert(outcome(s, step) == outcome(t, next));
            lemma_fault_in_flight(t, s, next, k - 1, message);
        }
    } else {
        reveal_with_fuel(faulted, 4);
        reveal_with_fuel(outcome, 4);
    }
}

/// A failure between the two writes of a change of value, after the record
/// was inserted and before the value is set, leaves the counter's value as
/// it was and no record behind.
pub proof fn law_failed_value_update_leaves_no_record(
    s: StoreState,
    user_id: i32,
    payload: AddPayload,
    message: Seq<char>,
)
    requires
        s.well_formed(),
        s.idle(),
        owns(s.live.counters, payload.counter_id, user_id),
        i32::MIN <= counter_of(s, payload.counter_id).value + payload.step <= i32::MAX,
        next_record_id(s.live.records) <= i32::MAX,
    ensures
        faulted(s, opening(Request::AddRecord { uid: user_id, delta: payload }), 3, message) == (
            s,
            broken(message),
        ),
{
    let i = choose|i: int|
        0 <= i < s.live.counters.len() && (#[trigger] s.live.counters[i]).is_for(
            payload.counter_id,
            user_id,
        );
    lemma_place(s.live.counters, payload.counter_id, i);
    reveal_with_fuel(faulted, 6);
}

/// No request leaves a transaction open: a store that was idle before a
/// request is idle after it, however the request ends.
pub proof fn law_requests_close_their_transactions(s: StoreState, request: Request)
    requires
        s.well_formed(),
        s.idle(),
    ensures
        served(s, request).0.idle(),
        served(s, request).0.clock == s.clock,
        served(s, request).1 is Err ==> served(s, request).0 == s,
{
    match request {
        Request::List { uid } => lemma_listed(s, uid),
        Request::Add { uid, payload } => lemma_added(s, uid, payload),
        Request::Show { uid, id } => lemma_shown(s, id, uid),
        Request::Update { uid, id, change } => lemma_updated(s, id, uid, change),
        Request::Destroy { uid, id } => lemma_destroyed(s, id, uid),
        Request::Top { uid, id } => lemma_topped(s, id, uid),
        Request::AddRecord { uid, delta } => lemma_applied(s, uid, delta),
        Request::ListRecords { uid, id } => lemma_history_listed(s, id, uid),
    }
}

} // verus!
