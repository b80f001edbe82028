//! Errors of the transaction lifecycle.
use vstd::prelude::*;

use crate::storage::error::{StorageError, StorageErrorView, storage_error_message};
use crate::text::concat;

verus! {

/// What can refuse or abort a transaction. I/O failures belong to the
/// program around the library and are not represented here.
#[derive(Debug, Clone)]
pub enum TransactionError {
    NotImplemented(&'static str),
    Lock(String),
    Storage(StorageError),
    AlreadyStaged,
    NotStaged,
    InconsistentState(String),
    Namespace(String),
    ValidationFailed(String),
}

pub enum TransactionErrorView {
    NotImplemented(Seq<char>),
    Lock(Seq<char>),
    Storage(StorageErrorView),
    AlreadyStaged,
    NotStaged,
    InconsistentState(Seq<char>),
    Namespace(Seq<char>),
    ValidationFailed(Seq<char>),
}

impl View for TransactionError {
    type V = TransactionErrorView;

    open spec fn view(&self) -> TransactionErrorView {
        match self {
            TransactionError::NotImplemented(s) => TransactionErrorView::NotImplemented(s@),
            TransactionError::Lock(s) => TransactionErrorView::Lock(s@),
            TransactionError::Storage(e) => TransactionErrorView::Storage(e@),
            TransactionError::AlreadyStaged => TransactionErrorView::AlreadyStaged,
            TransactionError::NotStaged => TransactionErrorView::NotStaged,
            TransactionError::InconsistentState(s) => TransactionErrorView::InconsistentState(s@),
            TransactionError::Namespace(s) => TransactionErrorView::Namespace(s@),
            TransactionError::ValidationFailed(s) => TransactionErrorView::ValidationFailed(s@),
        }
    }
}

pub open spec fn transaction_error_message(e: TransactionErrorView) -> Seq<char> {
    match e {
        TransactionErrorView::NotImplemented(s) => s + " is not implemented yet"@,
        TransactionErrorView::Lock(s) => "failed to acquire transaction lock: "@ + s,
        TransactionErrorView::Storage(e) => storage_error_message(e),
        TransactionErrorView::AlreadyStaged => "transaction is already staged"@,
        TransactionErrorView::NotStaged => "transaction has not been staged"@,
        TransactionErrorView::InconsistentState(s) => "inconsistent store state: "@ + s,
        TransactionErrorView::Namespace(s) => "failed to enter a private mount namespace: "@ + s,
        TransactionErrorView::ValidationFailed(s) => "staged root failed validation: "@ + s,
    }
}

impl TransactionError {
    /// The message the error displays.
    pub fn message(&self) -> (r: String)
        ensures
            r@ == transaction_error_message(self@),
    {
        match self {
            TransactionError::NotImplemented(s) => concat(s, " is not implemented yet"),
            TransactionError::Lock(s) => concat("failed to acquire transaction lock: ", s.as_str()),
            TransactionError::Storage(e) => e.message(),
            TransactionError::AlreadyStaged => "transaction is already staged".to_owned(),
            TransactionError::NotStaged => "transaction has not been staged".to_owned(),
            TransactionError::InconsistentState(s) => concat("inconsistent store state: ", s.as_str()),
            TransactionError::Namespace(s) => concat(
                "failed to enter a private mount namespace: ",
                s.as_str(),
            ),
            TransactionError::ValidationFailed(s) => concat(
                "staged root failed validation: ",
                s.as_str(),
            ),
        }
    }
}

} // verus!
