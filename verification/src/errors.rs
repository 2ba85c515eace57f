//! The errors a request can be answered with.

use vstd::prelude::*;

verus! {

/// Why a request was refused.
#[derive(Clone, Copy, PartialEq, Eq, Structural, Debug)]
pub enum ApiError {
    /// The body is not the JSON the route expects.
    InvalidJsonBody,
    /// A new item's title is blank.
    TitleRequired,
    /// An update sets a blank title.
    TitleCannotBeEmpty,
    /// A new category's name is blank.
    NameRequired,
    /// The path names no shelf.
    InvalidShelfType,
    /// The user has no item with the id.
    ItemNotFound,
    /// No route matches the method and path.
    RouteNotFound,
    /// The database did not answer as expected.
    DatabaseFailure,
}

/// The HTTP status an error is answered with.
pub open spec fn error_status(e: ApiError) -> u16 {
    match e {
        ApiError::ItemNotFound | ApiError::RouteNotFound => 404,
        ApiError::DatabaseFailure => 500,
        _ => 400,
    }
}

/// The message an error is answered with.
pub open spec fn error_message(e: ApiError) -> Seq<char> {
    match e {
        ApiError::InvalidJsonBody => "invalid JSON body"@,
        ApiError::TitleRequired => "title is required"@,
        ApiError::TitleCannotBeEmpty => "title cannot be empty"@,
        ApiError::NameRequired => "name is required"@,
        ApiError::InvalidShelfType => "invalid shelf type"@,
        ApiError::ItemNotFound => "item not found"@,
        ApiError::RouteNotFound => "route not found"@,
        ApiError::DatabaseFailure => "database request failed"@,
    }
}

impl ApiError {
    /// The HTTP status code of the answer.
    pub fn status(&self) -> (r: u16)
        ensures
            r == error_status(*self),
    {
        match self {
            ApiError::ItemNotFound | ApiError::RouteNotFound => 404,
            ApiError::DatabaseFailure => 500,
            _ => 400,
        }
    }

    /// The text of the answer's `error` field.
    pub fn message(&self) -> (r: &'static str)
        ensures
            r@ == error_message(*self),
    {
        match self {
            ApiError::InvalidJsonBody => "invalid JSON body",
            ApiError::TitleRequired => "title is required",
            ApiError::TitleCannotBeEmpty => "title cannot be empty",
            ApiError::NameRequired => "name is required",
            ApiError::InvalidShelfType => "invalid shelf type",
            ApiError::ItemNotFound => "item not found",
            ApiError::RouteNotFound => "route not found",
            ApiError::DatabaseFailure => "database request failed",
        }
    }
}

} // verus!
