//! The rows of the three tables.

use vstd::prelude::*;

pub mod statement;
pub mod store;

verus! {

/// Seconds since the Unix epoch, as the store's clock counts them.
pub type Timestamp = i64;

/// A person who has logged in at least once, known by the subject that the
/// login provider reports.
#[derive(Debug, PartialEq, Eq)]
pub struct User {
    pub id: i32,
    pub openid: String,
    pub session_key: String,
    pub created_at: Timestamp,
    pub updated_at: Timestamp,
}

/// A named count that belongs to one user.
#[derive(Debug, PartialEq, Eq)]
pub struct Counter {
    pub id: i32,
    pub user_id: i32,
    pub name: String,
    pub value: i32,
    pub step: i32,
    pub input_step: bool,
    pub sequence: i32,
    pub created_at: Timestamp,
    pub updated_at: Timestamp,
}

/// One change of a counter's value: from `begin` to `end`, by `step`.
#[derive(Debug, PartialEq, Eq, Clone, Copy)]
pub struct CounterRecord {
    pub id: i32,
    pub counter_id: i32,
    pub step: i32,
    pub begin: i32,
    pub end: i32,
    pub created_at: Timestamp,
    pub updated_at: Timestamp,
}

impl Clone for User {
    fn clone(&self) -> (copy: Self)
        ensures
            copy == *self,
    {
        User {
            id: self.id,
            openid: self.openid.clone(),
            session_key: self.session_key.clone(),
            created_at: self.created_at,
            updated_at: self.updated_at,
        }
    }
}

impl Clone for Counter {
    fn clone(&self) -> (copy: Self)
        ensures
            copy == *self,
    {
        Counter {
            id: self.id,
            user_id: self.user_id,
            name: self.name.clone(),
            value: self.value,
            step: self.step,
            input_step: self.input_step,
            sequence: self.sequence,
            created_at: self.created_at,
            updated_at: self.updated_at,
        }
    }
}

impl Counter {
    /// Whether this is the counter `id` of the user `user_id`. A counter of
    /// another user never is, whatever its id.
    pub open spec fn is_for(self, id: i32, user_id: i32) -> bool {
        self.id == id && self.user_id == user_id
    }

    /// Decides [`Counter::is_for`].
    pub fn belongs_to(&self, id: i32, user_id: i32) -> (yes: bool)
        ensures
            yes == self.is_for(id, user_id),
    {
        self.id == id && self.user_id == user_id
    }
}

impl CounterRecord {
    /// A record is sound when its step is the distance from `begin` to `end`.
    pub open spec fn sound(self) -> bool {
        self.end - self.begin == self.step
    }
}

} // verus!
