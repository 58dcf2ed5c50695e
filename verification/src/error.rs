//! What the ledgers report when something outside them failed.

use vstd::prelude::*;
use vstd::string::StringExecFns;
use crate::holdings::StoreError;

verus! {

/// A failed read, write or fetch: what the ledger was doing, and what the
/// storage or the source said went wrong.
#[derive(Debug, PartialEq, Eq)]
pub struct Failure {
    /// The operation and the key it was for.
    pub context: String,
    /// The underlying cause, as reported.
    pub cause: String,
}

impl Clone for Failure {
    fn clone(&self) -> (copy: Self)
        ensures
            copy == *self,
    {
        Failure { context: self.context.clone(), cause: self.cause.clone() }
    }
}

impl Failure {
    /// Wraps `cause` with the words `context`.
    pub fn new(context: &str, cause: String) -> (failure: Failure)
        ensures
            failure.context@ == context@,
            failure.cause == cause,
    {
        Failure { context: String::from_str(context), cause }
    }

    /// Wraps `cause` with `context` followed by `key`.
    pub fn for_key(context: &str, key: &str, cause: String) -> (failure: Failure)
        ensures
            failure.context@ == context@ + key@,
            failure.cause == cause,
    {
        let mut words = String::from_str(context);
        words.append(key);
        Failure { context: words, cause }
    }

    /// What is shown for this failure: the context.
    pub fn message(&self) -> (text: String)
        ensures
            text@ == self.context@,
    {
        self.context.clone()
    }

    /// The context and the cause, joined by a colon and a space.
    pub open spec fn full_text(&self) -> Seq<char> {
        self.context@ + ": "@ + self.cause@
    }

    /// The whole chain: context, then cause.
    pub fn detail(&self) -> (text: String)
        ensures
            text@ == self.full_text(),
    {
        let mut text = self.context.clone();
        text.append(": ");
        text.append(self.cause.as_str());
        text
    }
}

/// The status of a response that reports something missing.
pub const NOT_FOUND: u16 = 404;

/// The status of a response that reports a failure of the service.
pub const INTERNAL_SERVER_ERROR: u16 = 500;

/// An error as a client of the service sees it: a status and a message.
#[derive(Debug, PartialEq, Eq)]
pub struct AppError {
    pub status: u16,
    pub message: String,
}

impl AppError {
    pub fn new(status: u16, message: String) -> (error: AppError)
        ensures
            error.status == status,
            error.message == message,
    {
        AppError { status, message }
    }

    /// A failure of the service.
    pub fn internal(message: String) -> (error: AppError)
        ensures
            error.status == INTERNAL_SERVER_ERROR,
            error.message == message,
    {
        AppError::new(INTERNAL_SERVER_ERROR, message)
    }

    /// Something that was asked for does not exist.
    pub fn not_found(message: String) -> (error: AppError)
        ensures
            error.status == NOT_FOUND,
            error.message == message,
    {
        AppError::new(NOT_FOUND, message)
    }
}

impl From<StoreError> for AppError {
    /// A user without orders is reported as missing; anything else as a
    /// failure of the service. The message is that of the error.
    fn from(err: StoreError) -> (error: AppError)
        ensures
            error.message@ == err.text(),
            error.status == match err {
                StoreError::NoOrders(_) => NOT_FOUND,
                StoreError::Other(_) => INTERNAL_SERVER_ERROR,
            },
    {
        let message = err.message();
        match err {
            StoreError::NoOrders(_) => AppError::not_found(message),
            StoreError::Other(_) => AppError::internal(message),
        }
    }
}

impl vstd::std_specs::convert::FromSpecImpl<StoreError> for AppError {
    /// The message of the result is a new text, so the result is described
    /// by the contract of `from` and not by a value.
    open spec fn obeys_from_spec() -> bool {
        false
    }

    open spec fn from_spec(err: StoreError) -> AppError {
        arbitrary()
    }
}

} // verus!
