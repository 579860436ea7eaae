use crate::commands::parse::{outcome, Request, RequestView};
use crate::util::convert::{blob, reply, AsFrame, Frame, FrameView};
use crate::util::errors::{error_wrong_arity, wrong_arity, ProtocolError};
use crate::util::text::texts;
use vstd::pervasive::unreached;
use vstd::prelude::*;
use vstd::string::*;

verus! {

/// What the arguments of `QUIT` come to: there must be none.
pub open spec fn parsed(args: Seq<Seq<char>>) -> Result<RequestView, Seq<char>> {
    if args.len() != 0 {
        Err(wrong_arity("QUIT"@, args.len(), 0))
    } else {
        Ok(RequestView::QUIT)
    }
}

/// Parses the arguments of `QUIT`.
pub fn parse(args: Vec<String>) -> (result: Result<Request, ProtocolError>)
    ensures
        outcome(result) == parsed(texts(args@)),
{
    if args.len() != 0 {
        Err(error_wrong_arity("QUIT", args.len(), 0))
    } else {
        Ok(Request::QUIT)
    }
}

/// The reply to `QUIT`.
pub open spec fn done() -> FrameView {
    blob("OK"@)
}

/// Handles `QUIT`.
pub fn default_handle(args: &Request) -> (result: Result<Frame, ProtocolError>)
    requires
        args is QUIT,
    ensures
        reply(result) == Ok::<FrameView, Seq<char>>(done()),
{
    match args {
        Request::QUIT => Ok("OK".as_frame()),
        _ => unreached(),
    }
}

} // verus!
