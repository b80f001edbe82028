//! Errors of the pure LayerFS semantics.
use vstd::prelude::*;

verus! {

/// What can go wrong in the core semantics. I/O and JSON failures belong to
/// the program around the library and are not represented here.
#[derive(Debug, Clone)]
pub enum CoreError {
    InvalidCheckpoint(String),
    InvalidOption { key: String, value: String },
    InvalidState(String),
    NotImplemented(&'static str),
}

/// `CoreError` with its strings taken as character sequences.
pub enum CoreErrorView {
    InvalidCheckpoint(Seq<char>),
    InvalidOption { key: Seq<char>, value: Seq<char> },
    InvalidState(Seq<char>),
    NotImplemented(Seq<char>),
}

impl View for CoreError {
    type V = CoreErrorView;

    open spec fn view(&self) -> CoreErrorView {
        match self {
            CoreError::InvalidCheckpoint(s) => CoreErrorView::InvalidCheckpoint(s@),
            CoreError::InvalidOption { key, value } => CoreErrorView::InvalidOption {
                key: key@,
                value: value@,
            },
            CoreError::InvalidState(s) => CoreErrorView::InvalidState(s@),
            CoreError::NotImplemented(s) => CoreErrorView::NotImplemented(s@),
        }
    }
}

impl CoreError {
    /// The message the error displays.
    pub fn message(&self) -> (r: String)
        ensures
            r@ == core_error_message(self@),
    {
        match self {
            CoreError::InvalidCheckpoint(s) => crate::text::concat(
                "invalid checkpoint value: ",
                s.as_str(),
            ),
            CoreError::InvalidOption { key, value } => {
                let a = crate::text::concat3("invalid value for ", key.as_str(), ": ");
                crate::text::concat(a.as_str(), value.as_str())
            },
            CoreError::InvalidState(s) => crate::text::concat(
                "malformed state metadata: ",
                s.as_str(),
            ),
            CoreError::NotImplemented(s) => crate::text::concat(s, " is not implemented yet"),
        }
    }
}

pub open spec fn core_error_message(e: CoreErrorView) -> Seq<char> {
    match e {
        CoreErrorView::InvalidCheckpoint(s) => "invalid checkpoint value: "@ + s,
        CoreErrorView::InvalidOption { key, value } => "invalid value for "@ + key + ": "@ + value,
        CoreErrorView::InvalidState(s) => "malformed state metadata: "@ + s,
        CoreErrorView::NotImplemented(s) => s + " is not implemented yet"@,
    }
}

} // verus!
