//! Errors that the API answers with.

use vstd::prelude::*;

verus! {

/// An error answered to an API caller, by HTTP meaning.
#[derive(Debug)]
pub enum ApiError {
    /// The request's content is invalid (422).
    Validation(String),
    /// The request cannot be served as asked (400).
    BadRequest(String),
    /// The addressed resource does not exist (404).
    NotFound(String),
    /// The caller may not do this (401/403).
    Unauthorized(String),
    /// An upstream service failed (502).
    External(String),
    /// The resource existed but is no longer usable (410).
    Gone(String),
    /// The request clashes with work already under way (409).
    Conflict(String),
}

/// Abstract value of an [`ApiError`].
pub enum ApiErrorView {
    Validation(Seq<char>),
    BadRequest(Seq<char>),
    NotFound(Seq<char>),
    Unauthorized(Seq<char>),
    External(Seq<char>),
    Gone(Seq<char>),
    Conflict(Seq<char>),
}

impl View for ApiError {
    type V = ApiErrorView;

    open spec fn view(&self) -> ApiErrorView {
        match self {
            ApiError::Validation(m) => ApiErrorView::Validation(m@),
            ApiError::BadRequest(m) => ApiErrorView::BadRequest(m@),
            ApiError::NotFound(m) => ApiErrorView::NotFound(m@),
            ApiError::Unauthorized(m) => ApiErrorView::Unauthorized(m@),
            ApiError::External(m) => ApiErrorView::External(m@),
            ApiError::Gone(m) => ApiErrorView::Gone(m@),
            ApiError::Conflict(m) => ApiErrorView::Conflict(m@),
        }
    }
}

} // verus!
