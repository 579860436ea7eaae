use crate::commands::parse::{outcome, Request, RequestView};
use crate::util::convert::{blob, count_frame, reply, AsFrame, Frame, FrameView};
use crate::util::errors::ProtocolError;
use crate::util::table::Table;
use crate::util::text::{str_eq, texts, to_uppercase, uppercase};
use vstd::pervasive::unreached;
use vstd::prelude::*;
use vstd::string::*;

verus! {

/// The subcommands of `COMMAND`.
#[derive(Debug, Clone, PartialEq, Eq)]
pub enum Command {
    /// `COMMAND`
    CMD,
    /// `COMMAND COUNT`
    COUNT,
    /// `COMMAND DOCS [command-name [command-name ...]]`
    DOCS(Vec<String>),
    /// `COMMAND INFO [command-name [command-name ...]]`
    INFO(Vec<String>),
    /// `COMMAND LIST`
    LIST,
}

/// The mathematical model of a `COMMAND` subcommand.
pub enum CommandView {
    CMD,
    COUNT,
    DOCS(Seq<Seq<char>>),
    INFO(Seq<Seq<char>>),
    LIST,
}

impl View for Command {
    type V = CommandView;

    open spec fn view(&self) -> CommandView {
        match self {
            Command::CMD => CommandView::CMD,
            Command::COUNT => CommandView::COUNT,
            Command::DOCS(names) => CommandView::DOCS(texts(names@)),
            Command::INFO(names) => CommandView::INFO(texts(names@)),
            Command::LIST => CommandView::LIST,
        }
    }
}

/// What the arguments of `COMMAND` come to, given the first of them as it
/// is and in upper case, and those that follow it. A name that is no
/// subcommand's is a failure that names the argument as it was given.
pub open spec fn selected(name: Seq<char>, given: Seq<char>, following: Seq<Seq<char>>) -> Result<
    RequestView,
    Seq<char>,
> {
    if name == "COUNT"@ {
        Ok(RequestView::COMMAND(CommandView::COUNT))
    } else if name == "DOCS"@ {
        Ok(RequestView::COMMAND(CommandView::DOCS(following)))
    } else if name == "INFO"@ {
        Ok(RequestView::COMMAND(CommandView::INFO(following)))
    } else if name == "LIST"@ {
        Ok(RequestView::COMMAND(CommandView::LIST))
    } else {
        Err("Unknown sub command "@ + given)
    }
}

/// What the arguments of `COMMAND` come to: none asks for the details of
/// every command; else the first selects the subcommand, whatever its case.
pub open spec fn parsed(args: Seq<Seq<char>>) -> Result<RequestView, Seq<char>> {
    if args.len() == 0 {
        Ok(RequestView::COMMAND(CommandView::CMD))
    } else {
        selected(uppercase(args[0]), args[0], args.subrange(1, args.len() as int))
    }
}

/// Selects the subcommand by its name in upper case; the arguments begin
/// with the name as it was given.
pub fn select(name: &str, args: Vec<String>) -> (result: Result<Request, ProtocolError>)
    requires
        args.len() > 0,
    ensures
        outcome(result) == selected(
            name@,
            args[0]@,
            texts(args@).subrange(1, args.len() as int),
        ),
{
    let mut args = args;
    let ghost all = texts(args@);
    if str_eq(name, "COUNT") {
        Ok(Request::COMMAND(Command::COUNT))
    } else if str_eq(name, "DOCS") {
        let names = args.split_off(1);
        assert(texts(names@) =~= all.subrange(1, all.len() as int));
        Ok(Request::COMMAND(Command::DOCS(names)))
    } else if str_eq(name, "INFO") {
        let names = args.split_off(1);
        assert(texts(names@) =~= all.subrange(1, all.len() as int));
        Ok(Request::COMMAND(Command::INFO(names)))
    } else if str_eq(name, "LIST") {
        Ok(Request::COMMAND(Command::LIST))
    } else {
        let mut details = String::from_str("Unknown sub command ");
        details.append(args[0].as_str());
        Err(ProtocolError::new(details))
    }
}

/// Parses the arguments of `COMMAND`.
pub fn parse(args: Vec<String>) -> (result: Result<Request, ProtocolError>)
    ensures
        outcome(result) == parsed(texts(args@)),
{
    if args.len() == 0 {
        return Ok(Request::COMMAND(Command::CMD));
    }
    let name = to_uppercase(args[0].as_str());
    select(name.as_str(), args)
}

/// What is known of one command: pairs of a heading and a text.
pub type Details = Vec<(String, String)>;

/// What is known of each command of a table, as reply trees: for each
/// command its headings and texts in one flat sequence.
pub open spec fn detail_frames(values: Table<Details>) -> Seq<FrameView> {
    Seq::new(values.keys().len(), |i: int| values.values()[i].frame_view())
}

/// The commands with what is known of each, as a mapping from the names.
pub open spec fn described(names: Seq<Seq<char>>, details: Seq<FrameView>) -> FrameView {
    FrameView::Mapping(Seq::new(names.len(), |i: int| (blob(names[i]), details[i])))
}

/// The names asked for with what is known of each: every name as a
/// byte-string leaf, followed by the details of the command if it is among
/// the commands. A name that is not stands alone.
pub open spec fn documented(
    names: Seq<Seq<char>>,
    details: Seq<FrameView>,
    asked: Seq<Seq<char>>,
) -> Seq<FrameView>
    decreases asked.len(),
{
    if asked.len() == 0 {
        Seq::empty()
    } else {
        let before = documented(names, details, asked.drop_last());
        let name = asked.last();
        if names.contains(name) {
            before.push(blob(name)).push(details[names.index_of(name)])
        } else {
            before.push(blob(name))
        }
    }
}

/// The names of the commands as a reply, in their order.
pub open spec fn listed(names: Seq<Seq<char>>) -> FrameView {
    FrameView::Array(Seq::new(names.len(), |i: int| blob(names[i])))
}

/// The reply to each subcommand, given the names of the commands and what
/// is known of each. `DOCS` and `INFO` without a name ask for every command.
pub open spec fn handled(
    names: Seq<Seq<char>>,
    details: Seq<FrameView>,
    command: CommandView,
) -> FrameView {
    match command {
        CommandView::CMD => described(names, details),
        CommandView::COUNT => count_frame(names.len()),
        CommandView::DOCS(asked) | CommandView::INFO(asked) => if asked.len() == 0 {
            described(names, details)
        } else {
            FrameView::Array(documented(names, details, asked))
        },
        CommandView::LIST => listed(names),
    }
}

/// The names of the commands that are known by default.
pub open spec fn default_names() -> Seq<Seq<char>> {
    seq!["GET"@, "HELLO"@]
}

/// What is known by default of each command.
pub open spec fn default_details() -> Seq<FrameView> {
    seq![
        FrameView::Array(seq![blob("summary"@), blob("Get the value for a given key"@)]),
        FrameView::Array(seq![blob("summary"@), blob("Session init"@)]),
    ]
}

/// Handles `COMMAND` with what is known of two commands.
pub fn default_handle(args: Request) -> (result: Result<Frame, ProtocolError>)
    requires
        args is COMMAND,
    ensures
        reply(result) == Ok::<FrameView, Seq<char>>(
            handled(default_names(), default_details(), args@->COMMAND_0),
        ),
{
    proof {
        reveal_strlit("GET");
        reveal_strlit("HELLO");
        assert("GET"@.len() != "HELLO"@.len());
    }
    let mut command_info: Table<Details> = Table::new();
    let mut get: Details = Vec::new();
    get.push((String::from_str("summary"), String::from_str("Get the value for a given key")));
    let mut hello: Details = Vec::new();
    hello.push((String::from_str("summary"), String::from_str("Session init")));
    assert(get.frame_view()->Array_0 =~= default_details()[0]->Array_0);
    assert(hello.frame_view()->Array_0 =~= default_details()[1]->Array_0);
    command_info.insert(String::from_str("GET"), get);
    command_info.insert(String::from_str("HELLO"), hello);
    assert(command_info.keys() =~= default_names());
    assert(detail_frames(command_info) =~= default_details());
    handle(command_info, args)
}

/// Handles `COMMAND` with what is known of the commands.
pub fn handle(values: Table<Details>, args: Request) -> (result: Result<Frame, ProtocolError>)
    requires
        args is COMMAND,
    ensures
        reply(result) == Ok::<FrameView, Seq<char>>(
            handled(values.keys(), detail_frames(values), args@->COMMAND_0),
        ),
{
    match args {
        Request::COMMAND(cmd) => match cmd {
            Command::CMD => handle_cmd(values),
            Command::COUNT => handle_count(values),
            Command::DOCS(names) => handle_docs(values, names),
            Command::INFO(names) => handle_docs(values, names),
            Command::LIST => handle_list(values),
        },
        _ => unreached(),
    }
}

/// Replies with the details of every command.
fn handle_cmd(values: Table<Details>) -> (result: Result<Frame, ProtocolError>)
    ensures
        reply(result) == Ok::<FrameView, Seq<char>>(
            described(values.keys(), detail_frames(values)),
        ),
{
    let frame = values.as_frame();
    assert(frame@->Mapping_0 =~= described(values.keys(), detail_frames(values))->Mapping_0);
    Ok(frame)
}

/// Replies with what is known of the commands asked for, or of every
/// command where none is asked for.
fn handle_docs(values: Table<Details>, args: Vec<String>) -> (result: Result<
    Frame,
    ProtocolError,
>)
    ensures
        reply(result) == Ok::<FrameView, Seq<char>>(
            if args.len() == 0 {
                described(values.keys(), detail_frames(values))
            } else {
                FrameView::Array(documented(values.keys(), detail_frames(values), texts(args@)))
            },
        ),
{
    if args.len() == 0 {
        return handle_cmd(values);
    }
    let ghost names = values.keys();
    let ghost details = detail_frames(values);
    let mut intermediate: Vec<Frame> = Vec::new();
    let mut i: usize = 0;
    while i < args.len()
        invariant
            i <= args.len(),
            names == values.keys(),
            details == detail_frames(values),
            Seq::new(intermediate.len() as nat, |k: int| intermediate[k]@) == documented(
                names,
                details,
                texts(args@).take(i as int),
            ),
        decreases args.len() - i,
    {
        let ghost before = Seq::new(intermediate.len() as nat, |k: int| intermediate[k]@);
        let ghost asked = texts(args@).take(i + 1);
        assert(asked.drop_last() =~= texts(args@).take(i as int));
        intermediate.push(args[i].as_frame());
        match values.get(args[i].as_str()) {
            Some(v) => {
                intermediate.push(v.as_frame());
                assert(Seq::new(intermediate.len() as nat, |k: int| intermediate[k]@)
                    =~= before.push(blob(args[i as int]@)).push(
                    details[names.index_of(args[i as int]@)],
                ));
            },
            None => {
                assert(Seq::new(intermediate.len() as nat, |k: int| intermediate[k]@)
                    =~= before.push(blob(args[i as int]@)));
            },
        }
        i += 1;
    }
    assert(texts(args@).take(args.len() as int) =~= texts(args@));
    let frame = Frame::Array(intermediate);
    assert(frame@->Array_0 =~= documented(names, details, texts(args@)));
    Ok(frame)
}

/// Replies with the names of all commands.
fn handle_list(values: Table<Details>) -> (result: Result<Frame, ProtocolError>)
    ensures
        reply(result) == Ok::<FrameView, Seq<char>>(listed(values.keys())),
{
    let mut keys: Vec<String> = Vec::new();
    let mut i: usize = 0;
    while i < values.len()
        invariant
            i <= values.keys().len(),
            keys.len() == i,
            forall|j: int| 0 <= j < i ==> keys[j]@ == values.keys()[j],
        decreases values.keys().len() - i,
    {
        keys.push(values.key(i).clone());
        i += 1;
    }
    let frame = keys.as_frame();
    assert(frame@->Array_0 =~= listed(values.keys())->Array_0);
    Ok(frame)
}

/// Replies with the number of commands.
fn handle_count(values: Table<Details>) -> (result: Result<Frame, ProtocolError>)
    ensures
        reply(result) == Ok::<FrameView, Seq<char>>(count_frame(values.keys().len())),
{
    Ok(values.len().as_frame())
}

} // verus!
