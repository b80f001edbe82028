//! Errors of the storage layer.
use vstd::prelude::*;

use crate::text::concat;

verus! {

/// What can go wrong in the storage layer's own logic. I/O failures belong
/// to the program around the library and are not represented here.
#[derive(Debug, Clone)]
pub enum StorageError {
    NotImplemented(&'static str),
    Unsupported(&'static str),
    Discovery(String),
}

/// `StorageError` with its strings taken as character sequences.
pub enum StorageErrorView {
    NotImplemented(Seq<char>),
    Unsupported(Seq<char>),
    Discovery(Seq<char>),
}

impl View for StorageError {
    type V = StorageErrorView;

    open spec fn view(&self) -> StorageErrorView {
        match self {
            StorageError::NotImplemented(s) => StorageErrorView::NotImplemented(s@),
            StorageError::Unsupported(s) => StorageErrorView::Unsupported(s@),
            StorageError::Discovery(s) => StorageErrorView::Discovery(s@),
        }
    }
}

pub open spec fn storage_error_message(e: StorageErrorView) -> Seq<char> {
    match e {
        StorageErrorView::NotImplemented(s) => s + " is not implemented yet"@,
        StorageErrorView::Unsupported(s) => "backend does not support this operation: "@ + s,
        StorageErrorView::Discovery(s) => "layer discovery failed: "@ + s,
    }
}

impl StorageError {
    /// The message the error displays.
    pub fn message(&self) -> (r: String)
        ensures
            r@ == storage_error_message(self@),
    {
        match self {
            StorageError::NotImplemented(s) => concat(s, " is not implemented yet"),
            StorageError::Unsupported(s) => concat("backend does not support this operation: ", s),
            StorageError::Discovery(s) => concat("layer discovery failed: ", s.as_str()),
        }
    }
}

} // verus!
