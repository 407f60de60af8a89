//! A request as a conversation with the store.
//!
//! The store is somewhere else and may be slow, so nothing here waits for
//! it. [`Exchange::open`] gives the first statement of a request, and
//! [`Exchange::resume`] takes the store's reply and gives the next statement
//! or the request's end. Whoever holds the connection carries the statements
//! over; [`serve`] does so for a [`Store`] in memory.
//!
//! Every request that writes runs in one transaction, opened before the
//! first lookup and rolled back on any failure, so that either all of its
//! writes are kept or none.

use crate::api::counter::{AddPayload, UpdatePayload};
use crate::api::counter_record;
use crate::api::{ApiError, ApiErrorView};
use crate::db::statement::{Reply, ReplyView, Statement};
use crate::db::store::{effect, Store, StoreState};
use crate::db::{Counter, CounterRecord};
use vstd::prelude::*;
use vstd::string::StringExecFns;

verus! {

/// What a caller, known to be the user `uid`, asks for.
#[derive(Debug, PartialEq, Eq)]
pub enum Request {
    List { uid: i32 },
    Add { uid: i32, payload: AddPayload },
    Show { uid: i32, id: i32 },
    Update { uid: i32, id: i32, change: UpdatePayload },
    Destroy { uid: i32, id: i32 },
    Top { uid: i32, id: i32 },
    AddRecord { uid: i32, delta: counter_record::AddPayload },
    ListRecords { uid: i32, id: i32 },
}

/// What a request is answered with when it is served.
#[derive(Debug, PartialEq, Eq)]
pub enum Answer {
    Counters(Vec<Counter>),
    Counter(Counter),
    Empty,
    Records(Vec<CounterRecord>),
}

/// An [`Answer`] as contracts see it.
pub enum AnswerView {
    Counters(Seq<Counter>),
    Counter(Counter),
    Empty,
    Records(Seq<CounterRecord>),
}

impl View for Answer {
    type V = AnswerView;

    open spec fn view(&self) -> AnswerView {
        match *self {
            Answer::Counters(rows) => AnswerView::Counters(rows@),
            Answer::Counter(row) => AnswerView::Counter(row),
            Answer::Empty => AnswerView::Empty,
            Answer::Records(rows) => AnswerView::Records(rows@),
        }
    }
}

/// How a request ends, as contracts see it.
pub type Verdict = Result<AnswerView, ApiErrorView>;

/// The view of a request's end.
pub open spec fn verdict(end: Result<Answer, ApiError>) -> Verdict {
    match end {
        Ok(answer) => Ok(answer@),
        Err(error) => Err(error@),
    }
}

/// Which reply a conversation is waiting for.
#[derive(Debug, PartialEq, Eq)]
pub enum Stage {
    /// The transaction is being opened.
    Opening,
    /// The counter `id` is being looked up for the caller.
    Guarding { id: i32 },
    /// The caller's highest sequence is being looked up.
    Ranking,
    /// A list is being fetched.
    Listing,
    /// The new counter is being inserted.
    Inserting,
    /// The record is being inserted; the counter's value, `next`, is still to
    /// be written.
    Recording { id: i32, next: i32 },
    /// The counter's records are being removed; the counter is still to be.
    Purging { id: i32 },
    /// The request's last write is under way.
    Writing,
    /// The transaction is being committed; `row` is what to answer with.
    Committing { row: Option<Counter> },
    /// The transaction is being rolled back because of `error`.
    Aborting { error: ApiError },
}

/// A [`Stage`] as contracts see it.
pub enum StageView {
    Opening,
    Guarding { id: i32 },
    Ranking,
    Listing,
    Inserting,
    Recording { id: i32, next: i32 },
    Purging { id: i32 },
    Writing,
    Committing { row: Option<Counter> },
    Aborting { error: ApiErrorView },
}

impl View for Stage {
    type V = StageView;

    open spec fn view(&self) -> StageView {
        match *self {
            Stage::Opening => StageView::Opening,
            Stage::Guarding { id } => StageView::Guarding { id },
            Stage::Ranking => StageView::Ranking,
            Stage::Listing => StageView::Listing,
            Stage::Inserting => StageView::Inserting,
            Stage::Recording { id, next } => StageView::Recording { id, next },
            Stage::Purging { id } => StageView::Purging { id },
            Stage::Writing => StageView::Writing,
            Stage::Committing { row } => StageView::Committing { row },
            Stage::Aborting { error } => StageView::Aborting { error: error@ },
        }
    }
}

/// A request under way: what was asked, and which reply is awaited.
#[derive(Debug, PartialEq, Eq)]
pub struct Exchange {
    pub request: Request,
    pub stage: Stage,
}

/// An [`Exchange`] as contracts see it.
pub struct ExchangeView {
    pub request: Request,
    pub stage: StageView,
}

impl View for Exchange {
    type V = ExchangeView;

    open spec fn view(&self) -> ExchangeView {
        ExchangeView { request: self.request, stage: self.stage@ }
    }
}

/// What a conversation does next.
#[derive(Debug, PartialEq, Eq)]
pub enum Step {
    /// Send the statement to the store, and resume the exchange with the
    /// reply.
    Ask(Exchange, Statement),
    /// The request is over.
    Finish(Result<Answer, ApiError>),
}

/// A [`Step`] as contracts see it.
pub enum StepView {
    Ask(ExchangeView, Statement),
    Finish(Verdict),
}

impl View for Step {
    type V = StepView;

    open spec fn view(&self) -> StepView {
        match *self {
            Step::Ask(exchange, statement) => StepView::Ask(exchange@, statement),
            Step::Finish(end) => StepView::Finish(verdict(end)),
        }
    }
}

/// The error's text when the store answers a statement with a reply of the
/// wrong kind.
pub open spec fn unexpected_message() -> Seq<char> {
    "the store gave a reply that does not answer the statement"@
}

/// The error's text when a value or a sequence would leave the range of the
/// store's integers.
pub open spec fn overflow_message() -> Seq<char> {
    "the result does not fit the store's integers"@
}

impl Request {
    /// The user who asks.
    pub open spec fn owner_of(self) -> i32 {
        match self {
            Request::List { uid } => uid,
            Request::Add { uid, .. } => uid,
            Request::Show { uid, .. } => uid,
            Request::Update { uid, .. } => uid,
            Request::Destroy { uid, .. } => uid,
            Request::Top { uid, .. } => uid,
            Request::AddRecord { uid, .. } => uid,
            Request::ListRecords { uid, .. } => uid,
        }
    }

    /// The counter that the request is about, if it is about one that exists
    /// already.
    pub open spec fn target_of(self) -> Option<i32> {
        match self {
            Request::List { .. } => None,
            Request::Add { .. } => None,
            Request::Show { id, .. } => Some(id),
            Request::Update { id, .. } => Some(id),
            Request::Destroy { id, .. } => Some(id),
            Request::Top { id, .. } => Some(id),
            Request::AddRecord { delta, .. } => Some(delta.counter_id),
            Request::ListRecords { id, .. } => Some(id),
        }
    }

    /// Whether the request writes, and so runs in a transaction.
    pub open spec fn writes(self) -> bool {
        match self {
            Request::List { .. } => false,
            Request::Show { .. } => false,
            Request::ListRecords { .. } => false,
            _ => true,
        }
    }

    /// Computes [`Request::owner_of`].
    pub fn owner(&self) -> (uid: i32)
        ensures
            uid == self.owner_of(),
    {
        match self {
            Request::List { uid } => *uid,
            Request::Add { uid, .. } => *uid,
            Request::Show { uid, .. } => *uid,
            Request::Update { uid, .. } => *uid,
            Request::Destroy { uid, .. } => *uid,
            Request::Top { uid, .. } => *uid,
            Request::AddRecord { uid, .. } => *uid,
            Request::ListRecords { uid, .. } => *uid,
        }
    }

    /// Computes [`Request::target_of`].
    pub fn target(&self) -> (id: Option<i32>)
        ensures
            id == self.target_of(),
    {
        match self {
            Request::List { .. } => None,
            Request::Add { .. } => None,
            Request::Show { id, .. } => Some(*id),
            Request::Update { id, .. } => Some(*id),
            Request::Destroy { id, .. } => Some(*id),
            Request::Top { id, .. } => Some(*id),
            Request::AddRecord { delta, .. } => Some(delta.counter_id),
            Request::ListRecords { id, .. } => Some(*id),
        }
    }

    /// Computes [`Request::writes`].
    pub fn is_write(&self) -> (yes: bool)
        ensures
            yes == self.writes(),
    {
        match self {
            Request::List { .. } => false,
            Request::Show { .. } => false,
            Request::ListRecords { .. } => false,
            _ => true,
        }
    }
}

/// The step that sends `statement` and then waits at `stage`.
pub open spec fn ask(request: Request, stage: StageView, statement: Statement) -> StepView {
    StepView::Ask(ExchangeView { request, stage }, statement)
}

/// How a request fails once its conversation has begun: a request that
/// writes first has its transaction rolled back.
pub open spec fn fail(request: Request, error: ApiErrorView) -> StepView {
    if request.writes() {
        ask(request, StageView::Aborting { error }, Statement::Rollback)
    } else {
        StepView::Finish(Err(error))
    }
}

/// The failure on a reply of the wrong kind.
pub open spec fn confused(request: Request) -> StepView {
    fail(request, ApiErrorView::Internal(unexpected_message()))
}

/// The first statement that is about the tables. A request about a counter
/// that exists begins by looking it up for the caller, by id and owner
/// together.
pub open spec fn enter(request: Request) -> StepView {
    match request.target_of() {
        Some(id) => ask(
            request,
            StageView::Guarding { id },
            Statement::CounterOfOwner { id, user_id: request.owner_of() },
        ),
        None => match request {
            Request::List { uid } => ask(
                request,
                StageView::Listing,
                Statement::CountersOfOwner { user_id: uid },
            ),
            _ => ask(
                request,
                StageView::Ranking,
                Statement::TopSequence { user_id: request.owner_of() },
            ),
        },
    }
}

/// A request's first step.
pub open spec fn opening(request: Request) -> StepView {
    if request.writes() {
        ask(request, StageView::Opening, Statement::Begin)
    } else {
        enter(request)
    }
}

/// What follows when the caller's counter `row` has been found.
pub open spec fn guarded(request: Request, row: Counter) -> StepView {
    match request {
        Request::Show { .. } => StepView::Finish(Ok(AnswerView::Counter(row))),
        Request::Update { id, change, .. } => ask(
            request,
            StageView::Writing,
            Statement::Reconfigure {
                id,
                name: change.name,
                step: change.step,
                input_step: change.input_step,
            },
        ),
        Request::Destroy { id, .. } => ask(
            request,
            StageView::Purging { id },
            Statement::DeleteRecords { counter_id: id },
        ),
        Request::Top { uid, .. } => ask(
            request,
            StageView::Ranking,
            Statement::TopSequence { user_id: uid },
        ),
        Request::AddRecord { delta, .. } => {
            let next = row.value + delta.step;
            if i32::MIN <= next <= i32::MAX {
                ask(
                    request,
                    StageView::Recording { id: delta.counter_id, next: next as i32 },
                    Statement::InsertRecord {
                        counter_id: delta.counter_id,
                        step: delta.step,
                        begin: row.value,
                        end: next as i32,
                    },
                )
            } else {
                fail(request, ApiErrorView::Internal(overflow_message()))
            }
        },
        Request::ListRecords { id, .. } => ask(
            request,
            StageView::Listing,
            Statement::RecordsOfCounter { counter_id: id },
        ),
        _ => confused(request),
    }
}

/// What follows when the caller's highest sequence is known: `None` when
/// the caller has no counter.
pub open spec fn sequenced(request: Request, best: Option<i32>) -> StepView {
    match request {
        Request::Add { uid, payload } => {
            let sequence = match best {
                Some(b) => b + 1,
                None => 1,
            };
            if sequence <= i32::MAX {
                ask(
                    request,
                    StageView::Inserting,
                    Statement::InsertCounter {
                        user_id: uid,
                        name: payload.name,
                        value: payload.value,
                        step: payload.step,
                        input_step: payload.input_step,
                        sequence: sequence as i32,
                    },
                )
            } else {
                fail(request, ApiErrorView::Internal(overflow_message()))
            }
        },
        Request::Top { id, .. } => match best {
            Some(b) => if b < i32::MAX {
                ask(
                    request,
                    StageView::Writing,
                    Statement::SetSequence { id, sequence: (b + 1) as i32 },
                )
            } else {
                fail(request, ApiErrorView::Internal(overflow_message()))
            },
            None => fail(request, ApiErrorView::NotFound),
        },
        _ => confused(request),
    }
}

/// The step after a reply.
pub open spec fn after(x: ExchangeView, reply: ReplyView) -> StepView {
    let request = x.request;
    match (x.stage, reply) {
        (StageView::Aborting { error }, _) => StepView::Finish(Err(error)),
        (StageView::Opening, ReplyView::Done) => enter(request),
        (StageView::Opening, ReplyView::Failed(message)) => StepView::Finish(
            Err(ApiErrorView::Internal(message)),
        ),
        (StageView::Opening, _) => StepView::Finish(
            Err(ApiErrorView::Internal(unexpected_message())),
        ),
        (_, ReplyView::Failed(message)) => fail(request, ApiErrorView::Internal(message)),
        (StageView::Guarding { id }, ReplyView::Counter(row)) => if row.is_for(
            id,
            request.owner_of(),
        ) {
            guarded(request, row)
        } else {
            fail(request, ApiErrorView::NotFound)
        },
        (StageView::Guarding { .. }, ReplyView::NoRow) => fail(request, ApiErrorView::NotFound),
        (StageView::Ranking, ReplyView::Sequence(best)) => sequenced(request, Some(best)),
        (StageView::Ranking, ReplyView::NoRow) => sequenced(request, None),
        (StageView::Listing, ReplyView::Counters(rows)) => if request is List {
            StepView::Finish(Ok(AnswerView::Counters(rows)))
        } else {
            confused(request)
        },
        (StageView::Listing, ReplyView::Records(rows)) => if request is ListRecords {
            StepView::Finish(Ok(AnswerView::Records(rows)))
        } else {
            confused(request)
        },
        (StageView::Inserting, ReplyView::Counter(row)) => ask(
            request,
            StageView::Committing { row: Some(row) },
            Statement::Commit,
        ),
        (StageView::Recording { id, next }, ReplyView::Done) => ask(
            request,
            StageView::Writing,
            Statement::SetValue { id, value: next },
        ),
        (StageView::Purging { id }, ReplyView::Done) => ask(
            request,
            StageView::Writing,
            Statement::DeleteCounter { id },
        ),
        (StageView::Writing, ReplyView::Done) => ask(
            request,
            StageView::Committing { row: None },
            Statement::Commit,
        ),
        (StageView::Committing { row }, ReplyView::Done) => StepView::Finish(
            Ok(
                match row {
                    Some(row) => AnswerView::Counter(row),
                    None => AnswerView::Empty,
                },
            ),
        ),
        (_, _) => confused(request),
    }
}

/// How many statements a conversation may still send.
pub open spec fn rank(step: StepView) -> nat {
    match step {
        StepView::Finish(_) => 0,
        StepView::Ask(x, _) => match x.stage {
            StageView::Opening => 7,
            StageView::Guarding { .. } => 6,
            StageView::Ranking => 5,
            StageView::Listing => 4,
            StageView::Inserting => 4,
            StageView::Recording { .. } => 4,
            StageView::Purging { .. } => 4,
            StageView::Writing => 3,
            StageView::Committing { .. } => 2,
            StageView::Aborting { .. } => 1,
        },
    }
}

/// The store and the request's end when the conversation from `step` on is
/// held with the store `s`.
pub open spec fn outcome(s: StoreState, step: StepView) -> (StoreState, Verdict)
    decreases rank(step),
{
    match step {
        StepView::Finish(end) => (s, end),
        StepView::Ask(x, statement) => {
            let (s2, reply) = effect(s, statement);
            let next = after(x, reply);
            if rank(next) < rank(step) {
                outcome(s2, next)
            } else {
                (s2, Err(ApiErrorView::Internal(unexpected_message())))
            }
        },
    }
}

/// The store and the request's end when the store `s` serves `request`.
pub open spec fn served(s: StoreState, request: Request) -> (StoreState, Verdict) {
    outcome(s, opening(request))
}

/// Every reply brings a conversation nearer to its end.
pub proof fn lemma_after_descends(x: ExchangeView, statement: Statement, reply: ReplyView)
    ensures
        rank(after(x, reply)) < rank(StepView::Ask(x, statement)),
{
}

/// The error for a reply of the wrong kind.
pub(crate) fn unexpected() -> (error: ApiError)
    ensures
        error@ == ApiErrorView::Internal(unexpected_message()),
{
    ApiError::Internal(
        String::from_str("the store gave a reply that does not answer the statement"),
    )
}

fn overflow() -> (error: ApiError)
    ensures
        error@ == ApiErrorView::Internal(overflow_message()),
{
    ApiError::Internal(String::from_str("the result does not fit the store's integers"))
}

fn failing(request: Request, error: ApiError) -> (step: Step)
    ensures
        step@ == fail(request, error@),
{
    if request.is_write() {
        Step::Ask(Exchange { request, stage: Stage::Aborting { error } }, Statement::Rollback)
    } else {
        Step::Finish(Err(error))
    }
}

fn entering(request: Request) -> (step: Step)
    ensures
        step@ == enter(request),
{
    let user_id = request.owner();
    match request.target() {
        Some(id) => Step::Ask(
            Exchange { request, stage: Stage::Guarding { id } },
            Statement::CounterOfOwner { id, user_id },
        ),
        None => match request {
            Request::List { uid } => Step::Ask(
                Exchange { request: Request::List { uid }, stage: Stage::Listing },
                Statement::CountersOfOwner { user_id: uid },
            ),
            request => Step::Ask(
                Exchange { request, stage: Stage::Ranking },
                Statement::TopSequence { user_id },
            ),
        },
    }
}

fn found(request: Request, row: Counter) -> (step: Step)
    ensures
        step@ == guarded(request, row),
{
    match &request {
        Request::Show { .. } => Step::Finish(Ok(Answer::Counter(row))),
        Request::Update { id, change, .. } => {
            let statement = Statement::Reconfigure {
                id: *id,
                name: change.name.clone(),
                step: change.step,
                input_step: change.input_step,
            };
            Step::Ask(Exchange { request, stage: Stage::Writing }, statement)
        },
        Request::Destroy { id, .. } => {
            let id = *id;
            Step::Ask(
                Exchange { request, stage: Stage::Purging { id } },
                Statement::DeleteRecords { counter_id: id },
            )
        },
        Request::Top { uid, .. } => {
            let user_id = *uid;
            Step::Ask(Exchange { request, stage: Stage::Ranking }, Statement::TopSequence { user_id })
        },
        Request::AddRecord { delta, .. } => {
            let id = delta.counter_id;
            let step = delta.step;
            match row.value.checked_add(step) {
                Some(next) => Step::Ask(
                    Exchange { request, stage: Stage::Recording { id, next } },
                    Statement::InsertRecord { counter_id: id, step, begin: row.value, end: next },
                ),
                None => failing(request, overflow()),
            }
        },
        Request::ListRecords { id, .. } => {
            let counter_id = *id;
            Step::Ask(
                Exchange { request, stage: Stage::Listing },
                Statement::RecordsOfCounter { counter_id },
            )
        },
        _ => failing(request, unexpected()),
    }
}

fn placing(request: Request, best: Option<i32>) -> (step: Step)
    ensures
        step@ == sequenced(request, best),
{
    match &request {
        Request::Add { uid, payload } => {
            let sequence = match best {
                Some(b) => b.checked_add(1),
                None => Some(1),
            };
            match sequence {
                Some(sequence) => {
                    let statement = Statement::InsertCounter {
                        user_id: *uid,
                        name: payload.name.clone(),
                        value: payload.value,
                        step: payload.step,
                        input_step: payload.input_step,
                        sequence,
                    };
                    Step::Ask(Exchange { request, stage: Stage::Inserting }, statement)
                },
                None => failing(request, overflow()),
            }
        },
        Request::Top { id, .. } => {
            let id = *id;
            match best {
                Some(b) => match b.checked_add(1) {
                    Some(sequence) => Step::Ask(
                        Exchange { request, stage: Stage::Writing },
                        Statement::SetSequence { id, sequence },
                    ),
                    None => failing(request, overflow()),
                },
                None => failing(request, ApiError::NotFound),
            }
        },
        _ => failing(request, unexpected()),
    }
}

impl Exchange {
    /// Begins the conversation for a request: its first step.
    pub fn open(request: Request) -> (step: Step)
        ensures
            step@ == opening(request),
    {
        if request.is_write() {
            Step::Ask(Exchange { request, stage: Stage::Opening }, Statement::Begin)
        } else {
            entering(request)
        }
    }

    /// Takes the store's reply to the statement last sent and gives the next
    /// step, as [`after`] defines it.
    pub fn resume(self, reply: Reply) -> (step: Step)
        ensures
            step@ == after(self@, reply@),
    {
        let Exchange { request, stage } = self;
        match (stage, reply) {
            (Stage::Aborting { error }, _) => Step::Finish(Err(error)),
            (Stage::Opening, Reply::Done) => entering(request),
            (Stage::Opening, Reply::Failed(message)) => Step::Finish(
                Err(ApiError::Internal(message)),
            ),
            (Stage::Opening, _) => Step::Finish(Err(unexpected())),
            (_, Reply::Failed(message)) => failing(request, ApiError::Internal(message)),
            (Stage::Guarding { id }, Reply::Counter(row)) => {
                if row.belongs_to(id, request.owner()) {
                    found(request, row)
                } else {
                    failing(request, ApiError::NotFound)
                }
            },
            (Stage::Guarding { .. }, Reply::NoRow) => failing(request, ApiError::NotFound),
            (Stage::Ranking, Reply::Sequence(best)) => placing(request, Some(best)),
            (Stage::Ranking, Reply::NoRow) => placing(request, None),
            (Stage::Listing, Reply::Counters(rows)) => {
                if let Request::List { .. } = &request {
                    Step::Finish(Ok(Answer::Counters(rows)))
                } else {
                    failing(request, unexpected())
                }
            },
            (Stage::Listing, Reply::Records(rows)) => {
                if let Request::ListRecords { .. } = &request {
                    Step::Finish(Ok(Answer::Records(rows)))
                } else {
                    failing(request, unexpected())
                }
            },
            (Stage::Inserting, Reply::Counter(row)) => Step::Ask(
                Exchange { request, stage: Stage::Committing { row: Some(row) } },
                Statement::Commit,
            ),
            (Stage::Recording { id, next }, Reply::Done) => Step::Ask(
                Exchange { request, stage: Stage::Writing },
                Statement::SetValue { id, value: next },
            ),
            (Stage::Purging { id }, Reply::Done) => Step::Ask(
                Exchange { request, stage: Stage::Writing },
                Statement::DeleteCounter { id },
            ),
            (Stage::Writing, Reply::Done) => Step::Ask(
                Exchange { request, stage: Stage::Committing { row: None } },
                Statement::Commit,
            ),
            (Stage::Committing { row }, Reply::Done) => Step::Finish(
                Ok(
                    match row {
                        Some(row) => Answer::Counter(row),
                        None => Answer::Empty,
                    },
                ),
            ),
            (_, _) => failing(request, unexpected()),
        }
    }
}

/// Serves a request from the tables in memory: holds the request's whole
/// conversation with `store`.
pub fn serve(store: &mut Store, request: Request) -> (end: Result<Answer, ApiError>)
    requires
        old(store)@.well_formed(),
    ensures
        final(store)@.well_formed(),
        (final(store)@, verdict(end)) == served(old(store)@, request),
{
    let mut step = Exchange::open(request);
    loop
        invariant
            store@.well_formed(),
            outcome(store@, step@) == served(old(store)@, request),
        decreases rank(step@),
    {
        match step {
            Step::Finish(end) => {
                return end;
            },
            Step::Ask(exchange, statement) => {
                let reply = store.execute(&statement);
                proof {
                    lemma_after_descends(exchange@, statement, reply@);
                }
                step = exchange.resume(reply);
            },
        }
    }
}

} // verus!
