use crate::commands::cluster;
use crate::commands::cluster::Cluster;
use crate::commands::command;
use crate::commands::command::{Command, CommandView};
use crate::commands::config;
use crate::commands::config::Config;
use crate::commands::get;
use crate::commands::hello;
use crate::commands::info;
use crate::commands::info::Info;
use crate::commands::ping;
use crate::commands::quit;
use crate::commands::select;
use crate::util::errors::ProtocolError;
use crate::util::text::{
    join, joined, lowercased, str_eq, texts, to_uppercase, uppercase, uppercased,
};
use vstd::prelude::*;
use vstd::string::*;

verus! {

/// A request: one variant for each supported command, with the fields that
/// the command's grammar defines.
#[derive(Debug, Clone, PartialEq, Eq)]
pub enum Request {
    HELLO { version: Option<String>, clientname: Option<String>, auth: Option<(String, String)> },
    GET { key: String },
    SET { key: String, value: String },
    COMMAND(Command),
    INFO(Info),
    PING(String),
    SELECT(u64),
    QUIT,
    CLUSTER(Cluster),
    CONFIG(Config),
}

/// The mathematical model of a request: each string by its text.
pub enum RequestView {
    HELLO {
        version: Option<Seq<char>>,
        clientname: Option<Seq<char>>,
        auth: Option<(Seq<char>, Seq<char>)>,
    },
    GET { key: Seq<char> },
    SET { key: Seq<char>, value: Seq<char> },
    COMMAND(CommandView),
    INFO(Info),
    PING(Seq<char>),
    SELECT(u64),
    QUIT,
    CLUSTER(Cluster),
    CONFIG(Config),
}

/// The text of a string that may be absent.
pub open spec fn optional_text(text: Option<String>) -> Option<Seq<char>> {
    match text {
        Some(text) => Some(text@),
        None => None,
    }
}

impl View for Request {
    type V = RequestView;

    open spec fn view(&self) -> RequestView {
        match self {
            Request::HELLO { version, clientname, auth } => RequestView::HELLO {
                version: optional_text(*version),
                clientname: optional_text(*clientname),
                auth: match auth {
                    Some((username, password)) => Some((username@, password@)),
                    None => None,
                },
            },
            Request::GET { key } => RequestView::GET { key: key@ },
            Request::SET { key, value } => RequestView::SET { key: key@, value: value@ },
            Request::COMMAND(command) => RequestView::COMMAND(command@),
            Request::INFO(info) => RequestView::INFO(*info),
            Request::PING(message) => RequestView::PING(message@),
            Request::SELECT(index) => RequestView::SELECT(*index),
            Request::QUIT => RequestView::QUIT,
            Request::CLUSTER(cluster) => RequestView::CLUSTER(*cluster),
            Request::CONFIG(config) => RequestView::CONFIG(*config),
        }
    }
}

/// What parsing came to: the model of the request, or the message of the
/// failure.
pub open spec fn outcome(result: Result<Request, ProtocolError>) -> Result<RequestView, Seq<char>> {
    match result {
        Ok(request) => Ok(request@),
        Err(error) => Err(error@),
    }
}

/// What a query comes to, given the name of its command as it is and in
/// upper case, and the arguments. A name that is no command's is a failure
/// that names the command as it was given, and its arguments.
pub open spec fn routed(name: Seq<char>, command: Seq<char>, args: Seq<Seq<char>>) -> Result<
    RequestView,
    Seq<char>,
> {
    if name == "HELLO"@ {
        hello::parsed(args, uppercased(args))
    } else if name == "GET"@ {
        get::parsed(args)
    } else if name == "SET"@ {
        crate::commands::set::parsed(args)
    } else if name == "COMMAND"@ {
        command::parsed(args)
    } else if name == "INFO"@ {
        info::parsed(lowercased(args))
    } else if name == "PING"@ {
        ping::parsed(args)
    } else if name == "SELECT"@ {
        select::parsed(args)
    } else if name == "QUIT"@ {
        quit::parsed(args)
    } else if name == "CLUSTER"@ {
        cluster::parsed(args)
    } else if name == "CONFIG"@ {
        config::parsed(args)
    } else {
        Err("Unsupported command: "@ + command + " "@ + joined(args, " "@))
    }
}

/// What a query comes to: its first token names the command, whatever its
/// case; the rest are the command's arguments. A query without a token is a
/// failure.
pub open spec fn parsed(query: Seq<Seq<char>>) -> Result<RequestView, Seq<char>> {
    if query.len() == 0 {
        Err("Empty query"@)
    } else {
        routed(uppercase(query[0]), query[0], query.subrange(1, query.len() as int))
    }
}

/// Hands the arguments to the parser of the command, which is chosen by
/// the command's name in upper case.
pub fn route(name: &str, command: &str, args: Vec<String>) -> (result: Result<
    Request,
    ProtocolError,
>)
    ensures
        outcome(result) == routed(name@, command@, texts(args@)),
{
    if str_eq(name, "HELLO") {
        hello::parse(args)
    } else if str_eq(name, "GET") {
        get::parse(args)
    } else if str_eq(name, "SET") {
        crate::commands::set::parse(args)
    } else if str_eq(name, "COMMAND") {
        command::parse(args)
    } else if str_eq(name, "INFO") {
        info::parse(args)
    } else if str_eq(name, "PING") {
        ping::parse(args)
    } else if str_eq(name, "SELECT") {
        select::parse(args)
    } else if str_eq(name, "QUIT") {
        quit::parse(args)
    } else if str_eq(name, "CLUSTER") {
        cluster::parse(args)
    } else if str_eq(name, "CONFIG") {
        config::parse(args)
    } else {
        let mut details = String::from_str("Unsupported command: ");
        details.append(command);
        details.append(" ");
        details.append(join(&args, " ").as_str());
        Err(ProtocolError::new(details))
    }
}

/// Parses a query: the name of a command, then the command's arguments.
pub fn parse(query: Vec<String>) -> (result: Result<Request, ProtocolError>)
    ensures
        outcome(result) == parsed(texts(query@)),
{
    if query.len() == 0 {
        return Err(ProtocolError::new(String::from_str("Empty query")));
    }
    let mut query = query;
    let ghost all = texts(query@);
    let args = query.split_off(1);
    assert(texts(args@) =~= all.subrange(1, all.len() as int));
    let name = to_uppercase(query[0].as_str());
    route(name.as_str(), query[0].as_str(), args)
}

/// Parsing the same tokens again gives the same request: whatever two runs
/// of the parser return on two queries that hold the same tokens, both fail
/// with the same message or both give requests that are equal field by
/// field.
pub proof fn lemma_parse_again(
    first: Seq<String>,
    second: Seq<String>,
    one: Result<Request, ProtocolError>,
    other: Result<Request, ProtocolError>,
)
    requires
        texts(first) == texts(second),
        outcome(one) == parsed(texts(first)),
        outcome(other) == parsed(texts(second)),
    ensures
        outcome(one) == outcome(other),
{
}

} // verus!
