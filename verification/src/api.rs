//! The requests, what each asks of the store, and the errors they end in.

use crate::api::jwt::AuthError;
use vstd::prelude::*;
use vstd::string::StringExecFns;

pub mod atomic;
pub mod counter;
pub mod counter_record;
pub mod decimal;
pub mod exchange;
pub mod jwt;
pub mod laws;
pub mod ledger;
pub mod user;

verus! {

/// Why a request was not served.
#[derive(Debug, PartialEq, Eq)]
pub enum ApiError {
    /// The store, or something else that should not fail, failed; the text
    /// says how.
    Internal(String),
    /// The caller did not show who they are.
    Auth(AuthError),
    /// The caller has no such counter. A counter of another user and a
    /// counter that does not exist give the same answer.
    NotFound,
}

/// An [`ApiError`] as contracts see it.
pub enum ApiErrorView {
    Internal(Seq<char>),
    Auth(AuthError),
    NotFound,
}

impl View for ApiError {
    type V = ApiErrorView;

    open spec fn view(&self) -> ApiErrorView {
        match *self {
            ApiError::Internal(message) => ApiErrorView::Internal(message@),
            ApiError::Auth(error) => ApiErrorView::Auth(error),
            ApiError::NotFound => ApiErrorView::NotFound,
        }
    }
}

impl ApiErrorView {
    /// The HTTP status that the error is reported with.
    pub open spec fn status(self) -> u16 {
        match self {
            ApiErrorView::NotFound => 404,
            ApiErrorView::Internal(_) => 500,
            ApiErrorView::Auth(error) => error.status_of(),
        }
    }

    /// The text that the error is reported with.
    pub open spec fn message(self) -> Seq<char> {
        match self {
            ApiErrorView::NotFound => "Not Found"@,
            ApiErrorView::Internal(message) => message,
            ApiErrorView::Auth(error) => error.message_of(),
        }
    }
}

impl ApiError {
    /// The HTTP status that the error is reported with: 404 for a counter
    /// that the caller does not have, 500 for a failure inside, and for the
    /// rest what [`AuthError::status`] says.
    pub fn status(&self) -> (code: u16)
        ensures
            code == self@.status(),
    {
        match self {
            ApiError::NotFound => 404,
            ApiError::Internal(_) => 500,
            ApiError::Auth(error) => error.status(),
        }
    }

    /// The text under `error` in the response's body. A failure inside is
    /// reported in its own words.
    pub fn message(&self) -> (text: String)
        ensures
            text@ == self@.message(),
    {
        match self {
            ApiError::NotFound => String::from_str("Not Found"),
            ApiError::Internal(message) => message.clone(),
            ApiError::Auth(error) => error.message(),
        }
    }
}

impl From<AuthError> for ApiError {
    fn from(error: AuthError) -> (wrapped: ApiError) {
        ApiError::Auth(error)
    }
}

impl vstd::std_specs::convert::FromSpecImpl<AuthError> for ApiError {
    open spec fn obeys_from_spec() -> bool {
        true
    }

    open spec fn from_spec(error: AuthError) -> ApiError {
        ApiError::Auth(error)
    }
}

} // verus!
