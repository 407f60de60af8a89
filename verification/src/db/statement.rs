//! What the ledger asks of the store, and what the store answers.

use crate::db::{Counter, CounterRecord, User};
use vstd::prelude::*;

verus! {

/// One statement for the store. Every lookup of a single counter names both
/// the counter and its owner: there is no statement that finds a counter by
/// its id alone.
#[derive(Debug, PartialEq, Eq)]
pub enum Statement {
    /// Opens a transaction.
    Begin,
    /// Makes the open transaction's writes permanent.
    Commit,
    /// Undoes the open transaction's writes.
    Rollback,
    /// The counter `id` of the user `user_id`.
    CounterOfOwner { id: i32, user_id: i32 },
    /// A user's counters, highest sequence first, and among equal sequences
    /// highest id first.
    CountersOfOwner { user_id: i32 },
    /// The highest sequence among a user's counters.
    TopSequence { user_id: i32 },
    /// Adds a counter and answers with the new row.
    InsertCounter { user_id: i32, name: String, value: i32, step: i32, input_step: bool, sequence: i32 },
    /// Sets a counter's name and stepping.
    Reconfigure { id: i32, name: String, step: i32, input_step: bool },
    /// Sets a counter's sequence.
    SetSequence { id: i32, sequence: i32 },
    /// Sets a counter's value.
    SetValue { id: i32, value: i32 },
    /// Adds a record to a counter's history.
    InsertRecord { counter_id: i32, step: i32, begin: i32, end: i32 },
    /// Removes a counter's whole history.
    DeleteRecords { counter_id: i32 },
    /// Removes a counter.
    DeleteCounter { id: i32 },
    /// A counter's history, newest record first.
    RecordsOfCounter { counter_id: i32 },
    /// The user whose login subject is `openid`.
    UserByOpenid { openid: String },
    /// Adds a user.
    InsertUser { openid: String, session_key: String },
}

/// The store's answer to one statement.
#[derive(Debug, PartialEq, Eq)]
pub enum Reply {
    /// The statement ran and has nothing to report.
    Done,
    /// The statement ran and found no row.
    NoRow,
    /// The statement did not run; the store's message says why.
    Failed(String),
    Counter(Counter),
    Counters(Vec<Counter>),
    Sequence(i32),
    Records(Vec<CounterRecord>),
    User(User),
}

/// A [`Reply`] as contracts see it: lists by their items, text by its
/// characters.
pub enum ReplyView {
    Done,
    NoRow,
    Failed(Seq<char>),
    Counter(Counter),
    Counters(Seq<Counter>),
    Sequence(i32),
    Records(Seq<CounterRecord>),
    User(User),
}

impl View for Reply {
    type V = ReplyView;

    open spec fn view(&self) -> ReplyView {
        match *self {
            Reply::Done => ReplyView::Done,
            Reply::NoRow => ReplyView::NoRow,
            Reply::Failed(message) => ReplyView::Failed(message@),
            Reply::Counter(row) => ReplyView::Counter(row),
            Reply::Counters(rows) => ReplyView::Counters(rows@),
            Reply::Sequence(n) => ReplyView::Sequence(n),
            Reply::Records(rows) => ReplyView::Records(rows@),
            Reply::User(row) => ReplyView::User(row),
        }
    }
}

/// A value bound to a `?` of a statement's text.
#[derive(Debug, PartialEq, Eq)]
pub enum Bind {
    Int(i32),
    Text(String),
    Flag(bool),
}

/// What kind of answer a statement has when it succeeds.
#[derive(Debug, PartialEq, Eq, Clone, Copy)]
pub enum Shape {
    /// Nothing: [`Reply::Done`].
    Nothing,
    /// One counter, or [`Reply::NoRow`].
    OneCounter,
    /// Any number of counters.
    Counters,
    /// One integer, or [`Reply::NoRow`].
    OneSequence,
    /// Any number of records.
    Records,
    /// One user, or [`Reply::NoRow`].
    OneUser,
}

impl Statement {
    /// The kind of answer the statement has.
    pub open spec fn shape_of(self) -> Shape {
        match self {
            Statement::CounterOfOwner { .. } => Shape::OneCounter,
            Statement::InsertCounter { .. } => Shape::OneCounter,
            Statement::CountersOfOwner { .. } => Shape::Counters,
            Statement::TopSequence { .. } => Shape::OneSequence,
            Statement::RecordsOfCounter { .. } => Shape::Records,
            Statement::UserByOpenid { .. } => Shape::OneUser,
            _ => Shape::Nothing,
        }
    }

    /// Computes [`Statement::shape_of`].
    pub fn shape(&self) -> (shape: Shape)
        ensures
            shape == self.shape_of(),
    {
        match self {
            Statement::CounterOfOwner { .. } => Shape::OneCounter,
            Statement::InsertCounter { .. } => Shape::OneCounter,
            Statement::CountersOfOwner { .. } => Shape::Counters,
            Statement::TopSequence { .. } => Shape::OneSequence,
            Statement::RecordsOfCounter { .. } => Shape::Records,
            Statement::UserByOpenid { .. } => Shape::OneUser,
            _ => Shape::Nothing,
        }
    }

    /// The values for the statement's `?`s, in the order of the text.
    pub open spec fn binds_of(self) -> Seq<Bind> {
        match self {
            Statement::Begin | Statement::Commit | Statement::Rollback => seq![],
            Statement::CounterOfOwner { id, user_id } => seq![Bind::Int(id), Bind::Int(user_id)],
            Statement::CountersOfOwner { user_id } => seq![Bind::Int(user_id)],
            Statement::TopSequence { user_id } => seq![Bind::Int(user_id)],
            Statement::InsertCounter { user_id, name, value, step, input_step, sequence } => seq![
                Bind::Int(user_id),
                Bind::Text(name),
                Bind::Int(value),
                Bind::Int(step),
                Bind::Flag(input_step),
                Bind::Int(sequence),
            ],
            Statement::Reconfigure { id, name, step, input_step } => seq![
                Bind::Text(name),
                Bind::Int(step),
                Bind::Flag(input_step),
                Bind::Int(id),
            ],
            Statement::SetSequence { id, sequence } => seq![Bind::Int(sequence), Bind::Int(id)],
            Statement::SetValue { id, value } => seq![Bind::Int(value), Bind::Int(id)],
            Statement::InsertRecord { counter_id, step, begin, end } => seq![
                Bind::Int(counter_id),
                Bind::Int(step),
                Bind::Int(begin),
                Bind::Int(end),
            ],
            Statement::DeleteRecords { counter_id } => seq![Bind::Int(counter_id)],
            Statement::DeleteCounter { id } => seq![Bind::Int(id)],
            Statement::RecordsOfCounter { counter_id } => seq![Bind::Int(counter_id)],
            Statement::UserByOpenid { openid } => seq![Bind::Text(openid)],
            Statement::InsertUser { openid, session_key } => seq![
                Bind::Text(openid),
                Bind::Text(session_key),
            ],
        }
    }

    /// Computes [`Statement::binds_of`].
    pub fn binds(&self) -> (binds: Vec<Bind>)
        ensures
            binds@ == self.binds_of(),
    {
        let mut binds: Vec<Bind> = Vec::new();
        match self {
            Statement::Begin | Statement::Commit | Statement::Rollback => {},
            Statement::CounterOfOwner { id, user_id } => {
                binds.push(Bind::Int(*id));
                binds.push(Bind::Int(*user_id));
            },
            Statement::CountersOfOwner { user_id } => {
                binds.push(Bind::Int(*user_id));
            },
            Statement::TopSequence { user_id } => {
                binds.push(Bind::Int(*user_id));
            },
            Statement::InsertCounter { user_id, name, value, step, input_step, sequence } => {
                binds.push(Bind::Int(*user_id));
                binds.push(Bind::Text(name.clone()));
                binds.push(Bind::Int(*value));
                binds.push(Bind::Int(*step));
                binds.push(Bind::Flag(*input_step));
                binds.push(Bind::Int(*sequence));
            },
            Statement::Reconfigure { id, name, step, input_step } => {
                binds.push(Bind::Text(name.clone()));
                binds.push(Bind::Int(*step));
                binds.push(Bind::Flag(*input_step));
                binds.push(Bind::Int(*id));
            },
            Statement::SetSequence { id, sequence } => {
                binds.push(Bind::Int(*sequence));
                binds.push(Bind::Int(*id));
            },
            Statement::SetValue { id, value } => {
                binds.push(Bind::Int(*value));
                binds.push(Bind::Int(*id));
            },
            Statement::InsertRecord { counter_id, step, begin, end } => {
                binds.push(Bind::Int(*counter_id));
                binds.push(Bind::Int(*step));
                binds.push(Bind::Int(*begin));
                binds.push(Bind::Int(*end));
            },
            Statement::DeleteRecords { counter_id } => {
                binds.push(Bind::Int(*counter_id));
            },
            Statement::DeleteCounter { id } => {
                binds.push(Bind::Int(*id));
            },
            Statement::RecordsOfCounter { counter_id } => {
                binds.push(Bind::Int(*counter_id));
            },
            Statement::UserByOpenid { openid } => {
                binds.push(Bind::Text(openid.clone()));
            },
            Statement::InsertUser { openid, session_key } => {
                binds.push(Bind::Text(openid.clone()));
                binds.push(Bind::Text(session_key.clone()));
            },
        }
        assert(binds@ =~= self.binds_of());
        binds
    }

    /// The statement in SQL, with a `?` for each of [`Statement::binds`].
    pub fn sql(&self) -> (text: &'static str)
        ensures
            text@ == self.sql_of(),
    {
        match self {
            Statement::Begin => "begin",
            Statement::Commit => "commit",
            Statement::Rollback => "rollback",
            Statement::CounterOfOwner { .. } => "select * from counters where id = ? and user_id = ?",
            Statement::CountersOfOwner { .. } =>
                "select * from counters where user_id = ? order by sequence desc, id desc",
            Statement::TopSequence { .. } =>
                "select sequence from counters where user_id = ? order by sequence desc limit 1",
            Statement::InsertCounter { .. } =>
                "insert into counters (user_id, name, value, step, input_step, sequence) values (?, ?, ?, ?, ?, ?) returning *",
            Statement::Reconfigure { .. } =>
                "update counters set name = ?, step = ?, input_step = ?, updated_at = CURRENT_TIMESTAMP where id = ?",
            Statement::SetSequence { .. } =>
                "update counters set sequence = ?, updated_at = CURRENT_TIMESTAMP where id = ?",
            Statement::SetValue { .. } =>
                "update counters set value = ?, updated_at = CURRENT_TIMESTAMP where id = ?",
            Statement::InsertRecord { .. } =>
                "insert into counter_records (counter_id, step, begin, end) values (?, ?, ?, ?)",
            Statement::DeleteRecords { .. } => "delete from counter_records where counter_id = ?",
            Statement::DeleteCounter { .. } => "delete from counters where id = ?",
            Statement::RecordsOfCounter { .. } =>
                "select * from counter_records where counter_id = ? order by id desc",
            Statement::UserByOpenid { .. } => "select * from users where openid = ?",
            Statement::InsertUser { .. } => "insert into users (openid, session_key) values (?, ?)",
        }
    }

    /// The text that [`Statement::sql`] gives.
    pub open spec fn sql_of(self) -> Seq<char> {
        match self {
            Statement::Begin => "begin"@,
            Statement::Commit => "commit"@,
            Statement::Rollback => "rollback"@,
            Statement::CounterOfOwner { .. } => "select * from counters where id = ? and user_id = ?"@,
            Statement::CountersOfOwner { .. } =>
                "select * from counters where user_id = ? order by sequence desc, id desc"@,
            Statement::TopSequence { .. } =>
                "select sequence from counters where user_id = ? order by sequence desc limit 1"@,
            Statement::InsertCounter { .. } =>
                "insert into counters (user_id, name, value, step, input_step, sequence) values (?, ?, ?, ?, ?, ?) returning *"@,
            Statement::Reconfigure { .. } =>
                "update counters set name = ?, step = ?, input_step = ?, updated_at = CURRENT_TIMESTAMP where id = ?"@,
            Statement::SetSequence { .. } =>
                "update counters set sequence = ?, updated_at = CURRENT_TIMESTAMP where id = ?"@,
            Statement::SetValue { .. } =>
                "update counters set value = ?, updated_at = CURRENT_TIMESTAMP where id = ?"@,
            Statement::InsertRecord { .. } =>
                "insert into counter_records (counter_id, step, begin, end) values (?, ?, ?, ?)"@,
            Statement::DeleteRecords { .. } => "delete from counter_records where counter_id = ?"@,
            Statement::DeleteCounter { .. } => "delete from counters where id = ?"@,
            Statement::RecordsOfCounter { .. } =>
                "select * from counter_records where counter_id = ? order by id desc"@,
            Statement::UserByOpenid { .. } => "select * from users where openid = ?"@,
            Statement::InsertUser { .. } => "insert into users (openid, session_key) values (?, ?)"@,
        }
    }
}

} // verus!
