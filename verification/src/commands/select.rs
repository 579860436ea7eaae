use crate::commands::parse::{outcome, Request, RequestView};
use crate::util::convert::{blob, reply, AsFrame, Frame, FrameView};
use crate::util::errors::{error_wrong_arity, wrong_arity, ProtocolError};
use crate::util::text::{
    decimal, decimal_string, is_digit, parse_u64, parsed_u64, texts, unsigned_digits,
};
use vstd::pervasive::unreached;
use vstd::prelude::*;
use vstd::string::*;

verus! {

/// What the arguments of `SELECT` come to: exactly one, the index of a
/// database as an unsigned decimal numeral.
pub open spec fn parsed(args: Seq<Seq<char>>) -> Result<RequestView, Seq<char>> {
    if args.len() != 1 {
        Err(wrong_arity("SELECT"@, args.len(), 1))
    } else {
        match parsed_u64(args[0]) {
            Some(index) => Ok(RequestView::SELECT(index)),
            None => Err("Failed to parse SELECT argument"@),
        }
    }
}

/// Parses the arguments of `SELECT`.
pub fn parse(args: Vec<String>) -> (result: Result<Request, ProtocolError>)
    ensures
        outcome(result) == parsed(texts(args@)),
{
    if args.len() != 1 {
        return Err(error_wrong_arity("SELECT", args.len(), 1));
    }
    match parse_u64(args[0].as_str()) {
        Some(number) => Ok(Request::SELECT(number)),
        None => Err(ProtocolError::new(String::from_str("Failed to parse SELECT argument"))),
    }
}

/// The reply to `SELECT`: the first database is the only one.
pub open spec fn selected(index: u64) -> Result<FrameView, Seq<char>> {
    if index == 0 {
        Ok(blob("Ok"@))
    } else {
        Err("Invalid index: "@ + decimal(index as nat))
    }
}

/// Handles `SELECT`.
pub fn default_handle(args: &Request) -> (result: Result<Frame, ProtocolError>)
    requires
        args is SELECT,
    ensures
        reply(result) == selected(args->SELECT_0),
{
    match args {
        Request::SELECT(db) => {
            if *db == 0 {
                Ok("Ok".as_frame())
            } else {
                let mut details = String::from_str("Invalid index: ");
                details.append(decimal_string(*db).as_str());
                Err(ProtocolError::new(details))
            }
        },
        _ => unreached(),
    }
}

/// Only the first database can be selected: index 0 succeeds, and every
/// other index fails with a message that names the index.
pub proof fn lemma_only_the_first_database(index: u64)
    ensures
        index == 0 ==> selected(index) == Ok::<FrameView, Seq<char>>(blob("Ok"@)),
        index != 0 ==> selected(index) == Err::<FrameView, Seq<char>>(
            "Invalid index: "@ + decimal(index as nat),
        ),
{
}

/// An argument that is no number fails to parse: one character that is no
/// digit, and is not a `+` at the front, is enough.
pub proof fn lemma_not_a_number(argument: Seq<char>, at: int)
    requires
        0 <= at < argument.len(),
        !is_digit(argument[at]),
        !(at == 0 && argument[0] == '+'),
    ensures
        parsed(seq![argument]) == Err::<RequestView, Seq<char>>(
            "Failed to parse SELECT argument"@,
        ),
{
    let digits = unsigned_digits(argument);
    if argument[0] == '+' {
        assert(digits[at - 1] == argument[at]);
    } else {
        assert(digits[at] == argument[at]);
    }
}

} // verus!
