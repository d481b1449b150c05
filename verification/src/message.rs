//! The plain request, response and error values the routing core works on.
//!
//! A request carries the path it is addressed to; a response carries a status
//! code and a body; an error carries the message a handler chose. Contracts
//! speak of these through their views: the request as the sequence of path
//! characters, the response as a [`ResponseView`], the error as the sequence
//! of message characters.

use vstd::prelude::*;

verus! {

/// Status code of the fixed response returned when no handler matches.
pub const NOT_FOUND_STATUS: u16 = 404;

/// An inbound request, reduced to what resolution reads from it: its path.
#[derive(Debug)]
pub struct Request {
    path: String,
}

impl View for Request {
    type V = Seq<char>;

    closed spec fn view(&self) -> Seq<char> {
        self.path@
    }
}

impl Request {
    /// Builds a request addressed to `path`.
    pub fn new(path: String) -> (r: Request)
        ensures
            r@ == path@,
    {
        Request { path }
    }

    /// The path this request is addressed to.
    pub fn path(&self) -> (p: &String)
        ensures
            p@ == self@,
    {
        &self.path
    }
}

/// What a response is, mathematically: a status code and the body bytes.
pub struct ResponseView {
    pub status: u16,
    pub body: Seq<u8>,
}

/// A response a handler produced, or the synthesized not-found response.
#[derive(Debug)]
pub struct Response {
    pub status: u16,
    pub body: Vec<u8>,
}

impl View for Response {
    type V = ResponseView;

    open spec fn view(&self) -> ResponseView {
        ResponseView { status: self.status, body: self.body@ }
    }
}

/// The view of a response with the given status and an empty body.
pub open spec fn status_only_view(status: u16) -> ResponseView {
    ResponseView { status, body: Seq::<u8>::empty() }
}

/// The fixed response resolution synthesizes when no handler matches.
pub open spec fn not_found_view() -> ResponseView {
    status_only_view(NOT_FOUND_STATUS)
}

impl Response {
    /// Builds a response with the given status and an empty body.
    pub fn new(status: u16) -> (r: Response)
        ensures
            r@ == status_only_view(status),
    {
        Response { status, body: Vec::new() }
    }

    /// Builds a response with the given status and body.
    pub fn with_body(status: u16, body: Vec<u8>) -> (r: Response)
        ensures
            r@ == (ResponseView { status, body: body@ }),
    {
        Response { status, body }
    }

    /// The fixed not-found response.
    pub fn not_found() -> (r: Response)
        ensures
            r@ == not_found_view(),
    {
        Response::new(NOT_FOUND_STATUS)
    }
}

/// An error a handler chose to return; the core passes it on unchanged.
#[derive(Debug)]
pub struct Error {
    pub message: String,
}

impl View for Error {
    type V = Seq<char>;

    open spec fn view(&self) -> Seq<char> {
        self.message@
    }
}

/// The view of a handler result: responses and errors by their views.
pub open spec fn result_view(r: Result<Response, Error>) -> Result<ResponseView, Seq<char>> {
    match r {
        Ok(resp) => Ok(resp@),
        Err(e) => Err(e@),
    }
}

} // verus!
