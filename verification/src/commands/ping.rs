use crate::commands::parse::{outcome, Request, RequestView};
use crate::util::convert::{blob, reply, AsFrame, Frame, FrameView};
use crate::util::errors::ProtocolError;
use crate::util::text::{join, joined, texts};
use vstd::pervasive::unreached;
use vstd::prelude::*;
use vstd::string::*;

verus! {

/// What the arguments of `PING` come to: the message, which is the
/// arguments with one space between each two neighbours.
pub open spec fn parsed(args: Seq<Seq<char>>) -> Result<RequestView, Seq<char>> {
    Ok(RequestView::PING(joined(args, " "@)))
}

/// Parses the arguments of `PING`: any number of them make up the message.
pub fn parse(args: Vec<String>) -> (result: Result<Request, ProtocolError>)
    ensures
        outcome(result) == parsed(texts(args@)),
{
    Ok(Request::PING(join(&args, " ")))
}

/// The reply to `PING`: the message, or `PONG` where the message is empty.
pub open spec fn echoed(message: Seq<char>) -> FrameView {
    if message.len() == 0 {
        blob("PONG"@)
    } else {
        blob(message)
    }
}

/// Handles `PING`.
pub fn default_handle(args: &Request) -> (result: Result<Frame, ProtocolError>)
    requires
        args is PING,
    ensures
        reply(result) == Ok::<FrameView, Seq<char>>(echoed(args@->PING_0)),
{
    match args {
        Request::PING(message) => {
            if message.as_str().is_empty() {
                Ok("PONG".as_frame())
            } else {
                Ok(message.as_frame())
            }
        },
        _ => unreached(),
    }
}

} // verus!
