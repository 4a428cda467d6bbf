//! How a request is refused.

use crate::text::concat;
use vstd::prelude::*;

verus! {

/// A request is not answered with data.
#[derive(Debug)]
pub enum Refusal {
    /// Nobody is logged in.
    Unauthorized,
    /// The request itself is wrong.
    BadRequest(String),
    /// There is nothing of that name.
    NotFound(String),
    /// The database failed.
    InternalError(String),
}

/// What a refusal says.
pub enum RefusalView {
    Unauthorized,
    BadRequest(Seq<char>),
    NotFound(Seq<char>),
    InternalError(Seq<char>),
}

impl View for Refusal {
    type V = RefusalView;

    open spec fn view(&self) -> RefusalView {
        match self {
            Refusal::Unauthorized => RefusalView::Unauthorized,
            Refusal::BadRequest(message) => RefusalView::BadRequest(message@),
            Refusal::NotFound(message) => RefusalView::NotFound(message@),
            Refusal::InternalError(message) => RefusalView::InternalError(message@),
        }
    }
}

impl RefusalView {
    /// The status code of HTTP for a refusal.
    pub open spec fn status(self) -> u16 {
        match self {
            RefusalView::Unauthorized => 401,
            RefusalView::BadRequest(_) => 400,
            RefusalView::NotFound(_) => 404,
            RefusalView::InternalError(_) => 500,
        }
    }

    /// The text of a refusal.
    pub open spec fn text(self) -> Seq<char> {
        match self {
            RefusalView::Unauthorized => "Unauthorized"@,
            RefusalView::BadRequest(message) => message,
            RefusalView::NotFound(message) => message,
            RefusalView::InternalError(message) => message,
        }
    }
}

impl Refusal {
    /// The status code of HTTP.
    pub fn status_code(&self) -> (r: u16)
        ensures
            r == self@.status(),
    {
        match self {
            Refusal::Unauthorized => 401,
            Refusal::BadRequest(_) => 400,
            Refusal::NotFound(_) => 404,
            Refusal::InternalError(_) => 500,
        }
    }

    /// The text.
    pub fn message(&self) -> (r: &str)
        ensures
            r@ == self@.text(),
    {
        match self {
            Refusal::Unauthorized => "Unauthorized",
            Refusal::BadRequest(message) => message.as_str(),
            Refusal::NotFound(message) => message.as_str(),
            Refusal::InternalError(message) => message.as_str(),
        }
    }
}

pub(crate) fn bad_request<T>(message: &str) -> (r: Result<T, Refusal>)
    ensures
        r is Err,
        r->Err_0@ == RefusalView::BadRequest(message@),
{
    Err(Refusal::BadRequest(message.to_owned()))
}

pub(crate) fn not_found<T>(what: &str, name: &str) -> (r: Result<T, Refusal>)
    ensures
        r is Err,
        r->Err_0@ == RefusalView::NotFound(what@ + name@),
{
    Err(Refusal::NotFound(concat(what, name)))
}

pub(crate) fn internal_error<T>(what: &str, error: &str) -> (r: Result<T, Refusal>)
    ensures
        r is Err,
        r->Err_0@ == RefusalView::InternalError(what@ + error@),
{
    Err(Refusal::InternalError(concat(what, error)))
}

} // verus!
