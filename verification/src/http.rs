//! Answers to HTTP requests.
use vstd::prelude::*;

verus! {

/// The request was carried out.
pub const OK: u16 = 200;

/// The request makes no sense.
pub const BAD_REQUEST: u16 = 400;

/// The request is well formed, but what it asks for is not valid.
pub const UNPROCESSABLE_ENTITY: u16 = 422;

/// Something went wrong on this side.
pub const INTERNAL_SERVER_ERROR: u16 = 500;

/// What the request needs is not there.
pub const SERVICE_UNAVAILABLE: u16 = 503;

/// A status and a text.
#[derive(Debug)]
pub struct HttpReply {
    pub status: u16,
    pub body: String,
}

/// The model of an [`HttpReply`].
pub struct ReplyView {
    pub status: u16,
    pub body: Seq<char>,
}

impl DeepView for HttpReply {
    type V = ReplyView;

    open spec fn deep_view(&self) -> ReplyView {
        ReplyView { status: self.status, body: self.body@ }
    }
}

/// How a command of the system ended.
#[derive(Debug)]
pub enum CommandResult {
    /// It ran and reported success.
    Succeeded,
    /// It ran and reported a failure; holds its status as the system words it.
    Failed(String),
    /// It could not be run; holds what the system said.
    NotRun(String),
}

} // verus!
