//! The three tables held in memory, and the meaning of every statement on
//! them.
//!
//! [`effect`] is the definition: the tables after a statement, and the reply.
//! [`Store::execute`] computes it.

use crate::db::statement::{Reply, ReplyView, Statement};
use crate::db::{Counter, CounterRecord, Timestamp, User};
use vstd::prelude::*;
use vstd::string::StringExecFns;

verus! {

/// The rows of the three tables, each table oldest row first.
pub struct Rows {
    pub users: Seq<User>,
    pub counters: Seq<Counter>,
    pub records: Seq<CounterRecord>,
}

/// A store as contracts see it.
pub struct StoreState {
    /// The tables as statements see them now.
    pub live: Rows,
    /// The tables as they were when the open transaction began, if one is
    /// open.
    pub saved: Option<Rows>,
    /// The time that the store stamps on the rows it writes.
    pub clock: Timestamp,
}

/// Ids grow along the table, so no two rows share one.
pub open spec fn users_ascend(rows: Seq<User>) -> bool {
    forall|i: int, j: int| 0 <= i < j < rows.len() ==> rows[i].id < rows[j].id
}

/// Ids grow along the table, so no two rows share one.
pub open spec fn counters_ascend(rows: Seq<Counter>) -> bool {
    forall|i: int, j: int| 0 <= i < j < rows.len() ==> rows[i].id < rows[j].id
}

/// Ids grow along the table, so no two rows share one.
pub open spec fn records_ascend(rows: Seq<CounterRecord>) -> bool {
    forall|i: int, j: int| 0 <= i < j < rows.len() ==> rows[i].id < rows[j].id
}

impl Rows {
    /// No table holds an id twice.
    pub open spec fn well_formed(self) -> bool {
        &&& users_ascend(self.users)
        &&& counters_ascend(self.counters)
        &&& records_ascend(self.records)
    }
}

impl StoreState {
    pub open spec fn well_formed(self) -> bool {
        &&& self.live.well_formed()
        &&& self.saved matches Some(rows) ==> rows.well_formed()
    }

    /// No transaction is open.
    pub open spec fn idle(self) -> bool {
        self.saved is None
    }
}

/// Whether a user has the counter `id`.
pub open spec fn owns(rows: Seq<Counter>, id: i32, user_id: i32) -> bool {
    exists|i: int| 0 <= i < rows.len() && (#[trigger] rows[i]).is_for(id, user_id)
}

/// Whether the table has a counter `id`, whoever owns it.
pub open spec fn holds(rows: Seq<Counter>, id: i32) -> bool {
    exists|i: int| 0 <= i < rows.len() && (#[trigger] rows[i]).id == id
}

/// Where the counter `id` stands in the table, if [`holds`] says it is there.
pub open spec fn place(rows: Seq<Counter>, id: i32) -> int {
    choose|i: int| 0 <= i < rows.len() && (#[trigger] rows[i]).id == id
}

/// The id that the next row gets: one more than the newest row's.
pub open spec fn next_counter_id(rows: Seq<Counter>) -> int {
    if rows.len() == 0 {
        1
    } else {
        rows.last().id + 1
    }
}

/// The id that the next row gets: one more than the newest row's.
pub open spec fn next_record_id(rows: Seq<CounterRecord>) -> int {
    if rows.len() == 0 {
        1
    } else {
        rows.last().id + 1
    }
}

/// The id that the next row gets: one more than the newest row's.
pub open spec fn next_user_id(rows: Seq<User>) -> int {
    if rows.len() == 0 {
        1
    } else {
        rows.last().id + 1
    }
}

/// The highest sequence among a user's counters.
pub open spec fn top_sequence(rows: Seq<Counter>, user_id: i32) -> Option<i32>
    decreases rows.len(),
{
    if rows.len() == 0 {
        None
    } else {
        let before = top_sequence(rows.drop_last(), user_id);
        let row = rows.last();
        if row.user_id != user_id {
            before
        } else {
            match before {
                Some(best) => if best >= row.sequence {
                    Some(best)
                } else {
                    Some(row.sequence)
                },
                None => Some(row.sequence),
            }
        }
    }
}

/// How many rows at the front of a ranked list stand before a newcomer with
/// this sequence: those with a higher one.
pub open spec fn slot(ranked: Seq<Counter>, sequence: i32) -> int
    decreases ranked.len(),
{
    if ranked.len() == 0 {
        0
    } else if ranked[0].sequence > sequence {
        1 + slot(ranked.drop_first(), sequence)
    } else {
        0
    }
}

/// A user's counters in display order. Built by taking the table oldest row
/// first and putting each of the user's rows before the first row whose
/// sequence is not higher; `law_list_is_ordered_and_complete` of
/// [`crate::api::laws`] says what comes of that.
pub open spec fn ranked(rows: Seq<Counter>, user_id: i32) -> Seq<Counter>
    decreases rows.len(),
{
    if rows.len() == 0 {
        Seq::empty()
    } else {
        let before = ranked(rows.drop_last(), user_id);
        let row = rows.last();
        if row.user_id == user_id {
            before.insert(slot(before, row.sequence), row)
        } else {
            before
        }
    }
}

/// A counter's history, oldest record first.
pub open spec fn history(rows: Seq<CounterRecord>, counter_id: i32) -> Seq<CounterRecord>
    decreases rows.len(),
{
    if rows.len() == 0 {
        Seq::empty()
    } else {
        let before = history(rows.drop_last(), counter_id);
        if rows.last().counter_id == counter_id {
            before.push(rows.last())
        } else {
            before
        }
    }
}

/// The table without a counter's history.
pub open spec fn without(rows: Seq<CounterRecord>, counter_id: i32) -> Seq<CounterRecord>
    decreases rows.len(),
{
    if rows.len() == 0 {
        Seq::empty()
    } else {
        let before = without(rows.drop_last(), counter_id);
        if rows.last().counter_id == counter_id {
            before
        } else {
            before.push(rows.last())
        }
    }
}

/// The oldest user with this login subject.
pub open spec fn user_by_openid(rows: Seq<User>, openid: Seq<char>) -> Option<User>
    decreases rows.len(),
{
    if rows.len() == 0 {
        None
    } else if rows[0].openid@ == openid {
        Some(rows[0])
    } else {
        user_by_openid(rows.drop_first(), openid)
    }
}

/// The store's message when a table has used up its ids.
pub open spec fn full_message() -> Seq<char> {
    "no id is left for a new row"@
}

/// The store's message when a transaction is opened inside another.
pub open spec fn nested_message() -> Seq<char> {
    "a transaction is already open"@
}

/// The store's message when a transaction is closed that was never opened.
pub open spec fn no_transaction_message() -> Seq<char> {
    "no transaction is open"@
}

/// The counters after `update ... where id = ?`: the row `id` changed by
/// `change`, if the table has it; every other row as it was.
pub open spec fn with_counter(
    rows: Seq<Counter>,
    id: i32,
    change: spec_fn(Counter) -> Counter,
) -> Seq<Counter> {
    if holds(rows, id) {
        rows.update(place(rows, id), change(rows[place(rows, id)]))
    } else {
        rows
    }
}

/// The tables and the reply after one statement.
pub open spec fn effect(s: StoreState, q: Statement) -> (StoreState, ReplyView) {
    let live = s.live;
    match q {
        Statement::Begin => if s.saved is Some {
            (s, ReplyView::Failed(nested_message()))
        } else {
            (StoreState { saved: Some(live), ..s }, ReplyView::Done)
        },
        Statement::Commit => if s.saved is None {
            (s, ReplyView::Failed(no_transaction_message()))
        } else {
            (StoreState { saved: None, ..s }, ReplyView::Done)
        },
        Statement::Rollback => match s.saved {
            None => (s, ReplyView::Failed(no_transaction_message())),
            Some(rows) => (StoreState { live: rows, saved: None, ..s }, ReplyView::Done),
        },
        Statement::CounterOfOwner { id, user_id } => if owns(live.counters, id, user_id) {
            (s, ReplyView::Counter(live.counters[place(live.counters, id)]))
        } else {
            (s, ReplyView::NoRow)
        },
        Statement::CountersOfOwner { user_id } => (
            s,
            ReplyView::Counters(ranked(live.counters, user_id)),
        ),
        Statement::TopSequence { user_id } => match top_sequence(live.counters, user_id) {
            Some(best) => (s, ReplyView::Sequence(best)),
            None => (s, ReplyView::NoRow),
        },
        Statement::InsertCounter { user_id, name, value, step, input_step, sequence } => {
            if next_counter_id(live.counters) > i32::MAX {
                (s, ReplyView::Failed(full_message()))
            } else {
                let row = Counter {
                    id: next_counter_id(live.counters) as i32,
                    user_id,
                    name,
                    value,
                    step,
                    input_step,
                    sequence,
                    created_at: s.clock,
                    updated_at: s.clock,
                };
                (
                    StoreState { live: Rows { counters: live.counters.push(row), ..live }, ..s },
                    ReplyView::Counter(row),
                )
            }
        },
        Statement::Reconfigure { id, name, step, input_step } => (
            StoreState {
                live: Rows {
                    counters: with_counter(
                        live.counters,
                        id,
                        |row: Counter| Counter { name, step, input_step, updated_at: s.clock, ..row },
                    ),
                    ..live
                },
                ..s
            },
            ReplyView::Done,
        ),
        Statement::SetSequence { id, sequence } => (
            StoreState {
                live: Rows {
                    counters: with_counter(
                        live.counters,
                        id,
                        |row: Counter| Counter { sequence, updated_at: s.clock, ..row },
                    ),
                    ..live
                },
                ..s
            },
            ReplyView::Done,
        ),
        Statement::SetValue { id, value } => (
            StoreState {
                live: Rows {
                    counters: with_counter(
                        live.counters,
                        id,
                        |row: Counter| Counter { value, updated_at: s.clock, ..row },
                    ),
                    ..live
                },
                ..s
            },
            ReplyView::Done,
        ),
        Statement::InsertRecord { counter_id, step, begin, end } => {
            if next_record_id(live.records) > i32::MAX {
                (s, ReplyView::Failed(full_message()))
            } else {
                let row = CounterRecord {
                    id: next_record_id(live.records) as i32,
                    counter_id,
                    step,
                    begin,
                    end,
                    created_at: s.clock,
                    updated_at: s.clock,
                };
                (
                    StoreState { live: Rows { records: live.records.push(row), ..live }, ..s },
                    ReplyView::Done,
                )
            }
        },
        Statement::DeleteRecords { counter_id } => (
            StoreState { live: Rows { records: without(live.records, counter_id), ..live }, ..s },
            ReplyView::Done,
        ),
        Statement::DeleteCounter { id } => if holds(live.counters, id) {
            (
                StoreState {
                    live: Rows { counters: live.counters.remove(place(live.counters, id)), ..live },
                    ..s
                },
                ReplyView::Done,
            )
        } else {
            (s, ReplyView::Done)
        },
        Statement::RecordsOfCounter { counter_id } => (
            s,
            ReplyView::Records(history(live.records, counter_id).reverse()),
        ),
        Statement::UserByOpenid { openid } => match user_by_openid(live.users, openid@) {
            Some(row) => (s, ReplyView::User(row)),
            None => (s, ReplyView::NoRow),
        },
        Statement::InsertUser { openid, session_key } => {
            if next_user_id(live.users) > i32::MAX {
                (s, ReplyView::Failed(full_message()))
            } else {
                let row = User {
                    id: next_user_id(live.users) as i32,
                    openid,
                    session_key,
                    created_at: s.clock,
                    updated_at: s.clock,
                };
                (
                    StoreState { live: Rows { users: live.users.push(row), ..live }, ..s },
                    ReplyView::Done,
                )
            }
        },
    }
}

/// The three tables, each oldest row first.
#[derive(Debug, PartialEq, Eq)]
pub struct Tables {
    pub users: Vec<User>,
    pub counters: Vec<Counter>,
    pub records: Vec<CounterRecord>,
}

impl View for Tables {
    type V = Rows;

    open spec fn view(&self) -> Rows {
        Rows { users: self.users@, counters: self.counters@, records: self.records@ }
    }
}

fn copy_users(rows: &Vec<User>) -> (copy: Vec<User>)
    ensures
        copy@ == rows@,
{
    let mut copy: Vec<User> = Vec::new();
    let mut i: usize = 0;
    while i < rows.len()
        invariant
            i <= rows.len(),
            copy@ == rows@.take(i as int),
        decreases rows.len() - i,
    {
        copy.push(rows[i].clone());
        i += 1;
        assert(copy@ =~= rows@.take(i as int));
    }
    assert(rows@.take(i as int) =~= rows@);
    copy
}

fn copy_counters(rows: &Vec<Counter>) -> (copy: Vec<Counter>)
    ensures
        copy@ == rows@,
{
    let mut copy: Vec<Counter> = Vec::new();
    let mut i: usize = 0;
    while i < rows.len()
        invariant
            i <= rows.len(),
            copy@ == rows@.take(i as int),
        decreases rows.len() - i,
    {
        copy.push(rows[i].clone());
        i += 1;
        assert(copy@ =~= rows@.take(i as int));
    }
    assert(rows@.take(i as int) =~= rows@);
    copy
}

fn copy_records(rows: &Vec<CounterRecord>) -> (copy: Vec<CounterRecord>)
    ensures
        copy@ == rows@,
{
    let mut copy: Vec<CounterRecord> = Vec::new();
    let mut i: usize = 0;
    while i < rows.len()
        invariant
            i <= rows.len(),
            copy@ == rows@.take(i as int),
        decreases rows.len() - i,
    {
        copy.push(rows[i]);
        i += 1;
        assert(copy@ =~= rows@.take(i as int));
    }
    assert(rows@.take(i as int) =~= rows@);
    copy
}

impl Clone for Tables {
    fn clone(&self) -> (copy: Self)
        ensures
            copy@ == self@,
    {
        Tables {
            users: copy_users(&self.users),
            counters: copy_counters(&self.counters),
            records: copy_records(&self.records),
        }
    }
}

/// In a table without repeated ids, a counter's place is the one place where
/// its id is found.
pub proof fn lemma_place(rows: Seq<Counter>, id: i32, i: int)
    requires
        counters_ascend(rows),
        0 <= i < rows.len(),
        rows[i].id == id,
    ensures
        holds(rows, id),
        place(rows, id) == i,
{
    let p = place(rows, id);
    assert(0 <= p < rows.len() && rows[p].id == id);
    if p < i {
        assert(rows[p].id < rows[i].id);
    } else if i < p {
        assert(rows[i].id < rows[p].id);
    }
}

/// Where the counter `id` stands, if the table has it.
fn find_counter(rows: &Vec<Counter>, id: i32) -> (found: Option<usize>)
    requires
        counters_ascend(rows@),
    ensures
        found is Some <==> holds(rows@, id),
        found matches Some(i) ==> i < rows.len() && i == place(rows@, id) && rows[i as int].id == id,
{
    let mut i: usize = 0;
    while i < rows.len()
        invariant
            i <= rows.len(),
            counters_ascend(rows@),
            forall|j: int| 0 <= j < i ==> rows[j].id != id,
        decreases rows.len() - i,
    {
        if rows[i].id == id {
            proof {
                lemma_place(rows@, id, i as int);
            }
            return Some(i);
        }
        i += 1;
    }
    None
}

/// Computes [`top_sequence`].
fn top_of(rows: &Vec<Counter>, user_id: i32) -> (best: Option<i32>)
    ensures
        best == top_sequence(rows@, user_id),
{
    let mut best: Option<i32> = None;
    let mut i: usize = 0;
    while i < rows.len()
        invariant
            i <= rows.len(),
            best == top_sequence(rows@.take(i as int), user_id),
        decreases rows.len() - i,
    {
        assert(rows@.take(i + 1).drop_last() =~= rows@.take(i as int));
        if rows[i].user_id == user_id {
            best = match best {
                Some(b) => if b >= rows[i].sequence {
                    Some(b)
                } else {
                    Some(rows[i].sequence)
                },
                None => Some(rows[i].sequence),
            };
        }
        i += 1;
    }
    assert(rows@.take(i as int) =~= rows@);
    best
}

/// Computes [`slot`].
fn slot_of(ranked: &Vec<Counter>, sequence: i32) -> (at: usize)
    ensures
        at == slot(ranked@, sequence),
        at <= ranked.len(),
{
    let mut at: usize = 0;
    assert(ranked@.skip(0) =~= ranked@);
    while at < ranked.len() && ranked[at].sequence > sequence
        invariant
            at <= ranked.len(),
            slot(ranked@, sequence) == at + slot(ranked@.skip(at as int), sequence),
        decreases ranked.len() - at,
    {
        assert(ranked@.skip(at as int).drop_first() =~= ranked@.skip(at + 1));
        at += 1;
    }
    at
}

/// Computes [`ranked`].
fn rank(rows: &Vec<Counter>, user_id: i32) -> (list: Vec<Counter>)
    ensures
        list@ == ranked(rows@, user_id),
{
    let mut list: Vec<Counter> = Vec::new();
    let mut i: usize = 0;
    while i < rows.len()
        invariant
            i <= rows.len(),
            list@ == ranked(rows@.take(i as int), user_id),
        decreases rows.len() - i,
    {
        assert(rows@.take(i + 1).drop_last() =~= rows@.take(i as int));
        if rows[i].user_id == user_id {
            let at = slot_of(&list, rows[i].sequence);
            list.insert(at, rows[i].clone());
        }
        i += 1;
    }
    assert(rows@.take(i as int) =~= rows@);
    list
}

/// A counter's history, newest record first.
fn newest_first(rows: &Vec<CounterRecord>, counter_id: i32) -> (list: Vec<CounterRecord>)
    ensures
        list@ == history(rows@, counter_id).reverse(),
{
    let mut list: Vec<CounterRecord> = Vec::new();
    let mut i: usize = rows.len();
    assert(rows@.take(i as int) =~= rows@);
    while i > 0
        invariant
            i <= rows.len(),
            list@ + history(rows@.take(i as int), counter_id).reverse() == history(
                rows@,
                counter_id,
            ).reverse(),
        decreases i,
    {
        let ghost front = history(rows@.take(i - 1), counter_id);
        let ghost so_far = list@;
        assert(rows@.take(i as int).drop_last() =~= rows@.take(i - 1));
        i -= 1;
        if rows[i].counter_id == counter_id {
            assert(front.push(rows[i as int]).reverse() =~= seq![rows[i as int]] + front.reverse());
            list.push(rows[i]);
            assert(list@ + front.reverse() =~= so_far + (seq![rows[i as int]] + front.reverse()));
        }
    }
    assert(history(rows@.take(0), counter_id) =~= Seq::<CounterRecord>::empty());
    assert(list@ + Seq::<CounterRecord>::empty().reverse() =~= list@);
    list
}

/// What is left of a table after a history is taken out of it are rows of
/// that table, in their old order.
pub proof fn lemma_without_ascends(rows: Seq<CounterRecord>, counter_id: i32)
    requires
        records_ascend(rows),
    ensures
        records_ascend(without(rows, counter_id)),
        forall|k: int|
            0 <= k < without(rows, counter_id).len() ==> rows.contains(
                #[trigger] without(rows, counter_id)[k],
            ),
    decreases rows.len(),
{
    if rows.len() > 0 {
        let front = rows.drop_last();
        lemma_without_ascends(front, counter_id);
        let kept = without(front, counter_id);
        assert forall|k: int| 0 <= k < kept.len() implies rows.contains(#[trigger] kept[k])
            && kept[k].id < rows.last().id by {
            let j = choose|j: int| 0 <= j < front.len() && front[j] == kept[k];
            assert(rows[j] == kept[k]);
        }
        if rows.last().counter_id != counter_id {
            assert(rows[rows.len() - 1] == rows.last());
        }
    }
}

/// Computes [`without`].
fn purge(rows: &Vec<CounterRecord>, counter_id: i32) -> (kept: Vec<CounterRecord>)
    ensures
        kept@ == without(rows@, counter_id),
{
    let mut kept: Vec<CounterRecord> = Vec::new();
    let mut i: usize = 0;
    while i < rows.len()
        invariant
            i <= rows.len(),
            kept@ == without(rows@.take(i as int), counter_id),
        decreases rows.len() - i,
    {
        assert(rows@.take(i + 1).drop_last() =~= rows@.take(i as int));
        if rows[i].counter_id != counter_id {
            kept.push(rows[i]);
        }
        i += 1;
    }
    assert(rows@.take(i as int) =~= rows@);
    kept
}

/// Computes [`user_by_openid`].
fn find_user(rows: &Vec<User>, openid: &String) -> (found: Option<User>)
    ensures
        found == user_by_openid(rows@, openid@),
{
    let mut i: usize = 0;
    assert(rows@.skip(0) =~= rows@);
    while i < rows.len()
        invariant
            i <= rows.len(),
            user_by_openid(rows@, openid@) == user_by_openid(rows@.skip(i as int), openid@),
        decreases rows.len() - i,
    {
        assert(rows@.skip(i as int).drop_first() =~= rows@.skip(i + 1));
        if rows[i].openid == *openid {
            return Some(rows[i].clone());
        }
        i += 1;
    }
    None
}

/// The tables in memory, with at most one transaction open.
#[derive(Debug, PartialEq, Eq)]
pub struct Store {
    live: Tables,
    saved: Option<Tables>,
    clock: Timestamp,
}

impl View for Store {
    type V = StoreState;

    closed spec fn view(&self) -> StoreState {
        StoreState {
            live: self.live@,
            saved: match self.saved {
                Some(tables) => Some(tables@),
                None => None,
            },
            clock: self.clock,
        }
    }
}

impl Store {
    /// Empty tables, no transaction, the clock at the epoch.
    pub fn new() -> (store: Store)
        ensures
            store@.well_formed(),
            store@.idle(),
            store@.clock == 0,
            store@.live.users.len() == 0,
            store@.live.counters.len() == 0,
            store@.live.records.len() == 0,
    {
        Store {
            live: Tables { users: Vec::new(), counters: Vec::new(), records: Vec::new() },
            saved: None,
            clock: 0,
        }
    }

    /// Sets the time that the store stamps on what it writes from now on.
    pub fn set_clock(&mut self, now: Timestamp)
        ensures
            final(self)@ == (StoreState { clock: now, ..old(self)@ }),
    {
        self.clock = now;
    }

    /// The tables as statements see them now.
    pub fn tables(&self) -> (tables: &Tables)
        ensures
            tables@ == self@.live,
    {
        &self.live
    }

    /// Whether a transaction is open.
    pub fn in_transaction(&self) -> (open: bool)
        ensures
            open == !self@.idle(),
    {
        self.saved.is_some()
    }

    fn insert_counter(
        &mut self,
        user_id: i32,
        name: &String,
        value: i32,
        step: i32,
        input_step: bool,
        sequence: i32,
    ) -> (reply: Reply)
        requires
            old(self)@.well_formed(),
        ensures
            final(self)@.well_formed(),
            (final(self)@, reply@) == effect(
                old(self)@,
                Statement::InsertCounter { user_id, name: *name, value, step, input_step, sequence },
            ),
    {
        let n = self.live.counters.len();
        let id: i32 = if n == 0 {
            1
        } else if self.live.counters[n - 1].id == i32::MAX {
            return Reply::Failed(String::from_str("no id is left for a new row"));
        } else {
            self.live.counters[n - 1].id + 1
        };
        let row = Counter {
            id,
            user_id,
            name: name.clone(),
            value,
            step,
            input_step,
            sequence,
            created_at: self.clock,
            updated_at: self.clock,
        };
        self.live.counters.push(row.clone());
        Reply::Counter(row)
    }

    fn insert_record(&mut self, counter_id: i32, step: i32, begin: i32, end: i32) -> (reply: Reply)
        requires
            old(self)@.well_formed(),
        ensures
            final(self)@.well_formed(),
            (final(self)@, reply@) == effect(
                old(self)@,
                Statement::InsertRecord { counter_id, step, begin, end },
            ),
    {
        let n = self.live.records.len();
        let id: i32 = if n == 0 {
            1
        } else if self.live.records[n - 1].id == i32::MAX {
            return Reply::Failed(String::from_str("no id is left for a new row"));
        } else {
            self.live.records[n - 1].id + 1
        };
        self.live.records.push(
            CounterRecord {
                id,
                counter_id,
                step,
                begin,
                end,
                created_at: self.clock,
                updated_at: self.clock,
            },
        );
        Reply::Done
    }

    fn insert_user(&mut self, openid: &String, session_key: &String) -> (reply: Reply)
        requires
            old(self)@.well_formed(),
        ensures
            final(self)@.well_formed(),
            (final(self)@, reply@) == effect(
                old(self)@,
                Statement::InsertUser { openid: *openid, session_key: *session_key },
            ),
    {
        let n = self.live.users.len();
        let id: i32 = if n == 0 {
            1
        } else if self.live.users[n - 1].id == i32::MAX {
            return Reply::Failed(String::from_str("no id is left for a new row"));
        } else {
            self.live.users[n - 1].id + 1
        };
        self.live.users.push(
            User {
                id,
                openid: openid.clone(),
                session_key: session_key.clone(),
                created_at: self.clock,
                updated_at: self.clock,
            },
        );
        Reply::Done
    }

    fn reconfigure(&mut self, id: i32, name: &String, step: i32, input_step: bool) -> (reply: Reply)
        requires
            old(self)@.well_formed(),
        ensures
            final(self)@.well_formed(),
            (final(self)@, reply@) == effect(
                old(self)@,
                Statement::Reconfigure { id, name: *name, step, input_step },
            ),
    {
        match find_counter(&self.live.counters, id) {
            Some(i) => {
                let row = &self.live.counters[i];
                let changed = Counter {
                    id: row.id,
                    user_id: row.user_id,
                    name: name.clone(),
                    value: row.value,
                    step,
                    input_step,
                    sequence: row.sequence,
                    created_at: row.created_at,
                    updated_at: self.clock,
                };
                self.live.counters.set(i, changed);
            },
            None => {},
        }
        Reply::Done
    }

    fn set_sequence(&mut self, id: i32, sequence: i32) -> (reply: Reply)
        requires
            old(self)@.well_formed(),
        ensures
            final(self)@.well_formed(),
            (final(self)@, reply@) == effect(old(self)@, Statement::SetSequence { id, sequence }),
    {
        match find_counter(&self.live.counters, id) {
            Some(i) => {
                let row = &self.live.counters[i];
                let changed = Counter {
                    id: row.id,
                    user_id: row.user_id,
                    name: row.name.clone(),
                    value: row.value,
                    step: row.step,
                    input_step: row.input_step,
                    sequence,
                    created_at: row.created_at,
                    updated_at: self.clock,
                };
                self.live.counters.set(i, changed);
            },
            None => {},
        }
        Reply::Done
    }

    fn set_value(&mut self, id: i32, value: i32) -> (reply: Reply)
        requires
            old(self)@.well_formed(),
        ensures
            final(self)@.well_formed(),
            (final(self)@, reply@) == effect(old(self)@, Statement::SetValue { id, value }),
    {
        match find_counter(&self.live.counters, id) {
            Some(i) => {
                let row = &self.live.counters[i];
                let changed = Counter {
                    id: row.id,
                    user_id: row.user_id,
                    name: row.name.clone(),
                    value,
                    step: row.step,
                    input_step: row.input_step,
                    sequence: row.sequence,
                    created_at: row.created_at,
                    updated_at: self.clock,
                };
                self.live.counters.set(i, changed);
            },
            None => {},
        }
        Reply::Done
    }

    fn delete_counter(&mut self, id: i32) -> (reply: Reply)
        requires
            old(self)@.well_formed(),
        ensures
            final(self)@.well_formed(),
            (final(self)@, reply@) == effect(old(self)@, Statement::DeleteCounter { id }),
    {
        match find_counter(&self.live.counters, id) {
            Some(i) => {
                self.live.counters.remove(i);
            },
            None => {},
        }
        Reply::Done
    }

    fn counter_of_owner(&self, id: i32, user_id: i32) -> (reply: Reply)
        requires
            self@.well_formed(),
        ensures
            (self@, reply@) == effect(self@, Statement::CounterOfOwner { id, user_id }),
    {
        match find_counter(&self.live.counters, id) {
            Some(i) => {
                if self.live.counters[i].user_id == user_id {
                    assert(self.live.counters@[i as int].is_for(id, user_id));
                    Reply::Counter(self.live.counters[i].clone())
                } else {
                    assert forall|j: int| 0 <= j < self.live.counters@.len() implies !(
                    #[trigger] self.live.counters@[j]).is_for(id, user_id) by {
                        if self.live.counters@[j].id == id {
                            lemma_place(self.live.counters@, id, j);
                        }
                    }
                    Reply::NoRow
                }
            },
            None => Reply::NoRow,
        }
    }

    /// Runs one statement: changes the tables as [`effect`] says and gives
    /// its reply.
    pub fn execute(&mut self, statement: &Statement) -> (reply: Reply)
        requires
            old(self)@.well_formed(),
        ensures
            final(self)@.well_formed(),
            (final(self)@, reply@) == effect(old(self)@, *statement),
    {
        match statement {
            Statement::Begin => {
                if self.saved.is_some() {
                    Reply::Failed(String::from_str("a transaction is already open"))
                } else {
                    self.saved = Some(self.live.clone());
                    Reply::Done
                }
            },
            Statement::Commit => {
                if self.saved.is_none() {
                    Reply::Failed(String::from_str("no transaction is open"))
                } else {
                    self.saved = None;
                    Reply::Done
                }
            },
            Statement::Rollback => {
                match self.saved.take() {
                    None => Reply::Failed(String::from_str("no transaction is open")),
                    Some(tables) => {
                        self.live = tables;
                        Reply::Done
                    },
                }
            },
            Statement::CounterOfOwner { id, user_id } => self.counter_of_owner(*id, *user_id),
            Statement::CountersOfOwner { user_id } => Reply::Counters(
                rank(&self.live.counters, *user_id),
            ),
            Statement::TopSequence { user_id } => match top_of(&self.live.counters, *user_id) {
                Some(best) => Reply::Sequence(best),
                None => Reply::NoRow,
            },
            Statement::InsertCounter { user_id, name, value, step, input_step, sequence } => {
                self.insert_counter(*user_id, name, *value, *step, *input_step, *sequence)
            },
            Statement::Reconfigure { id, name, step, input_step } => self.reconfigure(
                *id,
                name,
                *step,
                *input_step,
            ),
            Statement::SetSequence { id, sequence } => self.set_sequence(*id, *sequence),
            Statement::SetValue { id, value } => self.set_value(*id, *value),
            Statement::InsertRecord { counter_id, step, begin, end } => self.insert_record(
                *counter_id,
                *step,
                *begin,
                *end,
            ),
            Statement::DeleteRecords { counter_id } => {
                proof {
                    lemma_without_ascends(self.live.records@, *counter_id);
                }
                self.live.records = purge(&self.live.records, *counter_id);
                Reply::Done
            },
            Statement::DeleteCounter { id } => self.delete_counter(*id),
            Statement::RecordsOfCounter { counter_id } => Reply::Records(
                newest_first(&self.live.records, *counter_id),
            ),
            Statement::UserByOpenid { openid } => match find_user(&self.live.users, openid) {
                Some(row) => Reply::User(row),
                None => Reply::NoRow,
            },
            Statement::InsertUser { openid, session_key } => self.insert_user(openid, session_key),
        }
    }
}

} // verus!
