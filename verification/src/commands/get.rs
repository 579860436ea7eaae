use crate::commands::parse::{outcome, Request, RequestView};
use crate::util::convert::{blob, reply, AsFrame, Frame, FrameView};
use crate::util::errors::{error_wrong_arity, wrong_arity, ProtocolError};
use crate::util::table::{stored, Table};
use crate::util::text::texts;
use vstd::pervasive::unreached;
use vstd::prelude::*;
use vstd::string::*;

verus! {

/// What the arguments of `GET` come to: exactly one, the key.
pub open spec fn parsed(args: Seq<Seq<char>>) -> Result<RequestView, Seq<char>> {
    if args.len() != 1 {
        Err(wrong_arity("GET"@, args.len(), 1))
    } else {
        Ok(RequestView::GET { key: args[0] })
    }
}

/// Parses the arguments of `GET`.
pub fn parse(args: Vec<String>) -> (result: Result<Request, ProtocolError>)
    ensures
        outcome(result) == parsed(texts(args@)),
{
    if args.len() != 1 {
        return Err(error_wrong_arity("GET", args.len(), 1));
    }
    Ok(Request::GET { key: args[0].clone() })
}

/// The reply to a lookup: the value stored under the key, or the null leaf
/// where nothing is stored under it.
pub open spec fn looked_up<V: AsFrame>(values: Map<Seq<char>, V>, key: Seq<char>) -> FrameView {
    if values.contains_key(key) {
        values[key].frame_view()
    } else {
        FrameView::Null
    }
}

/// Handles `GET` with one key and its value.
pub fn default_handle(args: Request) -> (result: Result<Frame, ProtocolError>)
    requires
        args is GET,
    ensures
        reply(result) == Ok::<FrameView, Seq<char>>(
            if args@->GET_key == "mykey"@ {
                blob("myvalue"@)
            } else {
                FrameView::Null
            },
        ),
{
    let mut default_values: Table<String> = Table::new();
    default_values.insert(String::from_str("mykey"), String::from_str("myvalue"));
    handle(&default_values, args)
}

/// Handles `GET`: looks the key up among the values.
pub fn handle<V: AsFrame>(values: &Table<V>, args: Request) -> (result: Result<
    Frame,
    ProtocolError,
>)
    requires
        args is GET,
    ensures
        reply(result) == Ok::<FrameView, Seq<char>>(looked_up(values@, args@->GET_key)),
{
    match args {
        Request::GET { key } => match values.get(key.as_str()) {
            Some(value) => Ok(value.as_frame()),
            None => Ok(Frame::Null),
        },
        _ => unreached(),
    }
}

/// The reply to a lookup in a store of texts.
pub open spec fn fetched(store: Map<Seq<char>, Seq<char>>, key: Seq<char>) -> FrameView {
    if store.contains_key(key) {
        blob(store[key])
    } else {
        FrameView::Null
    }
}

/// A lookup in a table of strings goes by the texts alone.
pub proof fn lemma_lookup_by_text(values: Table<String>, key: Seq<char>)
    ensures
        looked_up(values@, key) == fetched(stored(values), key),
{
}

/// `GET` of a key under which nothing was stored gives the null leaf.
pub proof fn lemma_get_never_stored<V: AsFrame>(values: Table<V>, key: Seq<char>)
    requires
        !values@.contains_key(key),
    ensures
        looked_up(values@, key) == FrameView::Null,
{
}

} // verus!
