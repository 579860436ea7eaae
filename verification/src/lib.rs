//! The command layer of a key/value server that speaks a Redis-like
//! protocol: from the tokens of a query to a typed request, from the request
//! to the result of its handler, and from that result to a reply tree.

pub mod commands;
pub mod util;

use crate::commands::cluster;
use crate::commands::command;
use crate::commands::config;
use crate::commands::config::Config;
use crate::commands::get;
use crate::commands::hello;
use crate::commands::info;
use crate::commands::parse;
use crate::commands::parse::{Request, RequestView};
use crate::commands::ping;
use crate::commands::quit;
use crate::commands::select;
use crate::util::convert::{reply, AsFrame, Frame, FrameView};
use crate::util::errors::ProtocolError;
use crate::util::table::{stored, Table};
use crate::util::text::texts;
use vstd::prelude::*;
use vstd::string::*;
use vstd::utf8::*;

verus! {

/// Calls `Resp3Frame::to_string` of `redis_protocol` on a blob string that
/// holds the given bytes. Trusted: the result is the text that the bytes
/// encode in UTF-8, and there is none where the bytes are not valid UTF-8.
#[verifier::external_body]
fn blob_text(data: &Vec<u8>) -> (text: Option<String>)
    ensures
        match text {
            Some(text) => encode_utf8(text@) == data@,
            None => !valid_utf8(data@),
        },
{
    let frame = redis_protocol::resp3::types::OwnedFrame::BlobString {
        data: data.clone(),
        attributes: None,
    };
    redis_protocol::resp3::types::Resp3Frame::to_string(&frame)
}

/// The tokens that a frame holds. A sequence holds the tokens of its items,
/// in order and however deep they lie. A byte string is one token: its text,
/// or `ERROR` where its bytes are no text. Any other frame is the one token
/// `No Idea`.
pub open spec fn tokens(frame: FrameView) -> Seq<Seq<char>>
    decreases frame, 0nat,
{
    match frame {
        FrameView::Array(items) => tokens_of_first(items, items.len()),
        FrameView::BlobString(data) => if valid_utf8(data) {
            seq![decode_utf8(data)]
        } else {
            seq!["ERROR"@]
        },
        _ => seq!["No Idea"@],
    }
}

/// The tokens that the first frames of a list hold, in order.
pub open spec fn tokens_of_first(items: Seq<FrameView>, count: nat) -> Seq<Seq<char>>
    decreases items, count,
{
    if count == 0 || count > items.len() {
        Seq::empty()
    } else {
        tokens_of_first(items, (count - 1) as nat) + tokens(items[count - 1])
    }
}

/// Turns a frame that came in, however deep its sequences are nested, into
/// the list of its tokens.
pub fn parse_owned_frame(frame: Frame) -> (ret: Vec<String>)
    ensures
        texts(ret@) == tokens(frame@),
{
    frame_tokens(&frame)
}

/// The tokens that a frame holds.
fn frame_tokens(frame: &Frame) -> (ret: Vec<String>)
    ensures
        texts(ret@) == tokens(frame@),
    decreases frame,
{
    let mut ret: Vec<String> = Vec::new();
    match frame {
        Frame::Array(data) => {
            let ghost items = frame@->Array_0;
            let mut i: usize = 0;
            while i < data.len()
                invariant
                    i <= data.len(),
                    decreases_to!(frame => *data),
                    items.len() == data.len(),
                    forall|j: int| 0 <= j < data.len() ==> items[j] == data[j]@,
                    texts(ret@) == tokens_of_first(items, i as nat),
                decreases data.len() - i,
            {
                let mut inner = frame_tokens(&data[i]);
                ret.append(&mut inner);
                i += 1;
            }
        },
        Frame::BlobString(data) => {
            match blob_text(data) {
                Some(content) => {
                    proof {
                        encode_utf8_valid_utf8(content@);
                        encode_utf8_decode_utf8(content@);
                    }
                    ret.push(content);
                },
                None => {
                    ret.push(String::from_str("ERROR"));
                },
            }
        },
        _ => {
            ret.push(String::from_str("No Idea"));
        },
    }
    ret
}

/// The result of handling a request, given the texts that the store holds.
/// Each command has its handler; `GET` reads the store, and every other
/// command but `SET` neither reads nor changes it.
pub open spec fn dispatched(request: RequestView, store: Map<Seq<char>, Seq<char>>) -> Result<
    FrameView,
    Seq<char>,
> {
    match request {
        RequestView::HELLO { version, .. } => hello::handled(hello::default_properties(), version),
        RequestView::GET { key } => Ok(get::fetched(store, key)),
        RequestView::SET { .. } => Ok(crate::commands::set::done()),
        RequestView::COMMAND(subcommand) => Ok(
            command::handled(command::default_names(), command::default_details(), subcommand),
        ),
        RequestView::INFO(_) => Ok(info::default_reply()),
        RequestView::PING(message) => Ok(ping::echoed(message)),
        RequestView::SELECT(index) => select::selected(index),
        RequestView::QUIT => Ok(quit::done()),
        RequestView::CLUSTER(subcommand) => Ok(cluster::default_reply(subcommand)),
        RequestView::CONFIG(Config::Get(get)) => Ok(config::config_get_reply(get)),
    }
}

/// The texts that the store holds after a request was handled: `SET` stores
/// its value under its key; no other command changes the store.
pub open spec fn store_after(request: RequestView, store: Map<Seq<char>, Seq<char>>) -> Map<
    Seq<char>,
    Seq<char>,
> {
    match request {
        RequestView::SET { key, value } => store.insert(key, value),
        _ => store,
    }
}

/// Hands a request to the handler of its command.
pub fn dispatch(request: Request, map: &mut Table<String>) -> (result: Result<
    Frame,
    ProtocolError,
>)
    ensures
        reply(result) == dispatched(request@, stored(*old(map))),
        stored(*final(map)) == store_after(
            request@,
            stored(*old(map)),
        ),
{
    match request {
        Request::HELLO { .. } => hello::default_handle(request),
        Request::GET { .. } => {
            proof {
                get::lemma_lookup_by_text(*map, request@->GET_key);
            }
            get::handle(map, request)
        },
        Request::SET { .. } => crate::commands::set::handle(map, &request),
        Request::COMMAND(_) => command::default_handle(request),
        Request::INFO(_) => info::default_handle(request),
        Request::PING(_) => ping::default_handle(&request),
        Request::SELECT(_) => select::default_handle(&request),
        Request::QUIT => quit::default_handle(&request),
        Request::CLUSTER(_) => cluster::default_handle(request),
        Request::CONFIG(_) => config::default_handle(request),
    }
}

/// The reply to a query: the reply of the handler, or a simple-error leaf
/// with the message of the failure, whether parsing failed or handling did.
pub open spec fn answered(
    request: Result<RequestView, Seq<char>>,
    store: Map<Seq<char>, Seq<char>>,
) -> FrameView {
    match request {
        Ok(request) => match dispatched(request, store) {
            Ok(frame) => frame,
            Err(message) => FrameView::SimpleError(message),
        },
        Err(message) => FrameView::SimpleError(message),
    }
}

/// Answers a query: parses it, hands the request to its handler and turns
/// the result into a reply tree. A query that fails to parse leaves the
/// store as it was.
pub fn handle_command(query: Vec<String>, map: &mut Table<String>) -> (frame: Frame)
    ensures
        frame@ == answered(parse::parsed(texts(query@)), stored(*old(map))),
        stored(*final(map)) == match parse::parsed(texts(query@)) {
            Ok(request) => store_after(request, stored(*old(map))),
            Err(_) => stored(*old(map)),
        },
{
    match parse::parse(query) {
        Ok(request) => match dispatch(request, map) {
            Ok(frame) => frame,
            Err(err) => err.as_frame(),
        },
        Err(err) => err.as_frame(),
    }
}

} // verus!
