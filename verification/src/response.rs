//! Responses and their layout on the wire.
//!
//! A response is a status line and a body. On the wire the body follows the
//! status line directly: each status line ends with the blank line that
//! closes the header, and no header gives the length of the body, so the
//! close of the connection ends it.

use crate::ascii::join;
use crate::decimal::{decimal, render_decimal};
use vstd::prelude::*;
use vstd::slice::slice_to_vec;
use vstd::string::*;

verus! {

/// The status line of a response.
#[derive(Clone, Copy, Debug, PartialEq, Eq, Structural)]
pub enum Status {
    /// `200 OK`, before a document or a die roll.
    Success,
    /// `404 NOT FOUND`, before the not-found document.
    NotFound,
    /// `200 OK` with a JSON content type, before the outcome of a save,
    /// whether the document was written or not.
    Saved,
}

/// The bytes of a status line, the closing blank line included.
pub open spec fn status_line(status: Status) -> Seq<u8> {
    match status {
        Status::Success => "HTTP/1.1 200 OK\r\n\r\n".spec_bytes(),
        Status::NotFound => "HTTP/1.1 404 NOT FOUND\r\n\r\n".spec_bytes(),
        Status::Saved => "HTTP/1.1 200 OK\nContent-Type: application/json\r\n\r\n".spec_bytes(),
    }
}

/// The body that reports the outcome of a save.
pub open spec fn save_outcome(written: bool) -> Seq<u8> {
    if written {
        "{\"status\": \"ok\"}\n".spec_bytes()
    } else {
        "{\"status\": \"fail\"}\n".spec_bytes()
    }
}

/// A response: a status line and a body.
#[derive(Debug, PartialEq, Eq)]
pub struct Response {
    /// The status line.
    pub status: Status,
    /// The body.
    pub body: Vec<u8>,
}

/// A [`Response`] as a mathematical value.
pub ghost struct ResponseView {
    pub status: Status,
    pub body: Seq<u8>,
}

impl ResponseView {
    /// The bytes of the response on the wire: the status line, then the
    /// body.
    pub open spec fn wire(self) -> Seq<u8> {
        status_line(self.status) + self.body
    }
}

impl View for Response {
    type V = ResponseView;

    open spec fn view(&self) -> ResponseView {
        ResponseView { status: self.status, body: self.body@ }
    }
}

/// The response to a die roll.
pub open spec fn dice_response(roll: nat) -> ResponseView {
    ResponseView { status: Status::Success, body: decimal(roll) }
}

/// The response that serves a document.
pub open spec fn document_response(contents: Seq<u8>) -> ResponseView {
    ResponseView { status: Status::Success, body: contents }
}

/// The response that serves the not-found document.
pub open spec fn not_found_response(contents: Seq<u8>) -> ResponseView {
    ResponseView { status: Status::NotFound, body: contents }
}

/// The response to a save.
pub open spec fn save_response(written: bool) -> ResponseView {
    ResponseView { status: Status::Saved, body: save_outcome(written) }
}

impl Status {
    /// The bytes of the status line, the closing blank line included.
    pub fn line(&self) -> (bytes: &'static [u8])
        ensures
            bytes@ == status_line(*self),
    {
        match self {
            Status::Success => "HTTP/1.1 200 OK\r\n\r\n".as_bytes(),
            Status::NotFound => "HTTP/1.1 404 NOT FOUND\r\n\r\n".as_bytes(),
            Status::Saved => "HTTP/1.1 200 OK\nContent-Type: application/json\r\n\r\n".as_bytes(),
        }
    }
}

impl Response {
    /// Answers a die roll with the face as a decimal numeral.
    pub fn dice(roll: u32) -> (response: Response)
        ensures
            response@ == dice_response(roll as nat),
    {
        Response { status: Status::Success, body: render_decimal(roll) }
    }

    /// Serves a document as it is.
    pub fn document(contents: Vec<u8>) -> (response: Response)
        ensures
            response@ == document_response(contents@),
    {
        Response { status: Status::Success, body: contents }
    }

    /// Serves the not-found document under the not-found status.
    pub fn not_found(contents: Vec<u8>) -> (response: Response)
        ensures
            response@ == not_found_response(contents@),
    {
        Response { status: Status::NotFound, body: contents }
    }

    /// Reports the outcome of a save. The status line is the same whether
    /// the document was written or not; only the body tells.
    pub fn saved(written: bool) -> (response: Response)
        ensures
            response@ == save_response(written),
    {
        let outcome: &[u8] = if written {
            "{\"status\": \"ok\"}\n".as_bytes()
        } else {
            "{\"status\": \"fail\"}\n".as_bytes()
        };
        Response { status: Status::Saved, body: slice_to_vec(outcome) }
    }

    /// Lays the response out for the wire: the status line, then the body.
    pub fn encode(&self) -> (bytes: Vec<u8>)
        ensures
            bytes@ == self@.wire(),
    {
        join(self.status.line(), self.body.as_slice())
    }
}

} // verus!
