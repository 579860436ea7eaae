use crate::commands::get::{lemma_lookup_by_text, looked_up};
use crate::commands::parse::{outcome, Request, RequestView};
use crate::util::convert::{blob, reply, AsFrame, Frame, FrameView};
use crate::util::errors::{error_wrong_arity, wrong_arity, ProtocolError};
use crate::util::table::{stored, Table};
use crate::util::text::texts;
use vstd::pervasive::unreached;
use vstd::prelude::*;
use vstd::string::*;

verus! {

/// What the arguments of `SET` come to: exactly two, the key and the value.
pub open spec fn parsed(args: Seq<Seq<char>>) -> Result<RequestView, Seq<char>> {
    if args.len() != 2 {
        Err(wrong_arity("SET"@, args.len(), 2))
    } else {
        Ok(RequestView::SET { key: args[0], value: args[1] })
    }
}

/// Parses the arguments of `SET`.
pub fn parse(args: Vec<String>) -> (result: Result<Request, ProtocolError>)
    ensures
        outcome(result) == parsed(texts(args@)),
{
    if args.len() != 2 {
        return Err(error_wrong_arity("SET", args.len(), 2));
    }
    Ok(Request::SET { key: args[0].clone(), value: args[1].clone() })
}

/// The reply to `SET`.
pub open spec fn done() -> FrameView {
    blob("Ok"@)
}

/// Handles `SET` on a store of its own, which is dropped.
pub fn default_handle(args: Request) -> (result: Result<Frame, ProtocolError>)
    requires
        args is SET,
    ensures
        reply(result) == Ok::<FrameView, Seq<char>>(done()),
{
    let mut dummy: Table<String> = Table::new();
    handle(&mut dummy, &args)
}

/// Handles `SET`: stores the value under the key, in place of any value
/// that the key had.
pub fn handle(values: &mut Table<String>, args: &Request) -> (result: Result<Frame, ProtocolError>)
    requires
        args is SET,
    ensures
        reply(result) == Ok::<FrameView, Seq<char>>(done()),
        stored(*final(values)) == stored(*old(values)).insert(
            args@->SET_key,
            args@->SET_value,
        ),
{
    match args {
        Request::SET { key, value } => {
            values.insert(key.clone(), value.clone());
            Ok("Ok".as_frame())
        },
        _ => unreached(),
    }
}

/// What is stored is found again: after `SET` stored a value under a key,
/// `GET` of that key gives a byte-string leaf with exactly that value,
/// whatever the store held before.
pub proof fn lemma_set_then_get(
    before: Table<String>,
    after: Table<String>,
    key: Seq<char>,
    value: Seq<char>,
)
    requires
        stored(after) == stored(before).insert(key, value),
    ensures
        looked_up(after@, key) == blob(value),
{
    lemma_lookup_by_text(after, key);
}

/// Storing under one key leaves the lookup of every other key as it was.
pub proof fn lemma_set_keeps_others(
    before: Table<String>,
    after: Table<String>,
    key: Seq<char>,
    value: Seq<char>,
    other: Seq<char>,
)
    requires
        stored(after) == stored(before).insert(key, value),
        other != key,
    ensures
        looked_up(after@, other) == looked_up(before@, other),
{
    lemma_lookup_by_text(after, other);
    lemma_lookup_by_text(before, other);
}

} // verus!
