//! What can go wrong on a connection.

use crate::text::{self, push_decimal};
use vstd::prelude::*;
use vstd::string::*;

verus! {

/// An error of the protocol layer.
#[derive(Debug)]
pub enum VynkorError {
    /// A payload of this many bytes is over the limit of the wire format.
    PayloadTooLarge(usize),
    /// No answer came in time.
    Timeout,
    /// The kernel refused the registration.
    PermissionDenied(String),
    /// Anything else, in words.
    Internal(String),
}

/// The model of a [`VynkorError`].
pub enum ErrorView {
    PayloadTooLarge(nat),
    Timeout,
    PermissionDenied(Seq<char>),
    Internal(Seq<char>),
}

impl View for VynkorError {
    type V = ErrorView;

    open spec fn view(&self) -> ErrorView {
        match self {
            VynkorError::PayloadTooLarge(size) => ErrorView::PayloadTooLarge(*size as nat),
            VynkorError::Timeout => ErrorView::Timeout,
            VynkorError::PermissionDenied(reason) => ErrorView::PermissionDenied(reason@),
            VynkorError::Internal(message) => ErrorView::Internal(message@),
        }
    }
}

/// The words that describe an error.
pub open spec fn description(error: ErrorView) -> Seq<char> {
    match error {
        ErrorView::PayloadTooLarge(size) => "payload too large: "@ + text::decimal(size) + " bytes"@,
        ErrorView::Timeout => "operation timed out"@,
        ErrorView::PermissionDenied(reason) => "permission denied: "@ + reason,
        ErrorView::Internal(message) => "internal error: "@ + message,
    }
}

impl VynkorError {
    /// Describes the error in words.
    pub fn describe(&self) -> (text: String)
        ensures
            text@ == description(self@),
    {
        let mut text = String::new();
        match self {
            VynkorError::PayloadTooLarge(size) => {
                text.append("payload too large: ");
                push_decimal(&mut text, *size as u64);
                text.append(" bytes");
            },
            VynkorError::Timeout => {
                text.append("operation timed out");
            },
            VynkorError::PermissionDenied(reason) => {
                text.append("permission denied: ");
                text.append(reason.as_str());
            },
            VynkorError::Internal(message) => {
                text.append("internal error: ");
                text.append(message.as_str());
            },
        }
        assert(text@ =~= description(self@));
        text
    }
}

} // verus!
