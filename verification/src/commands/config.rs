use crate::commands::parse::{outcome, Request, RequestView};
use crate::util::convert::{blob, map_to_array, reply, Frame, FrameView};
use crate::util::errors::{
    error_too_few_arguments, error_unsupported_command, too_few_arguments, unsupported_command,
    ProtocolError,
};
use crate::util::table::Table;
use crate::util::text::{all_to_lowercase, lowercased, str_eq, texts, to_uppercase, uppercase};
use vstd::pervasive::unreached;
use vstd::prelude::*;
use vstd::string::*;

verus! {

/// The subcommands of `CONFIG`.
#[derive(Debug, Clone, Copy, PartialEq, Eq)]
pub enum Config {
    Get(ConfigGet),
}

/// The configuration parameters that a `CONFIG GET` request asks for, one
/// flag for each parameter that is supported.
#[derive(Debug, Clone, Copy, PartialEq, Eq)]
pub struct ConfigGet {
    pub save: bool,
    pub appendonly: bool,
}

impl ConfigGet {
    /// An instance that asks for no parameter.
    pub fn new() -> (get: ConfigGet)
        ensures
            get == (ConfigGet { save: false, appendonly: false }),
    {
        ConfigGet { save: false, appendonly: false }
    }
}

/// What the parameters from a place on come to, given the parameters
/// found before that place. Each name sets its flag; a name that is no
/// parameter's is a failure that names it.
pub open spec fn parameters(lower: Seq<Seq<char>>, from: int, found: ConfigGet) -> Result<
    RequestView,
    Seq<char>,
>
    decreases lower.len() - from,
{
    if from < 0 || from >= lower.len() {
        Ok(RequestView::CONFIG(Config::Get(found)))
    } else if lower[from] == "save"@ {
        parameters(lower, from + 1, ConfigGet { save: true, ..found })
    } else if lower[from] == "appendonly"@ {
        parameters(lower, from + 1, ConfigGet { appendonly: true, ..found })
    } else {
        Err(unsupported_command("CONFIG GET "@ + lower[from]))
    }
}

/// What the arguments of `CONFIG GET` come to, given in lower case. At
/// least one parameter is needed.
pub open spec fn parsed_get(lower: Seq<Seq<char>>) -> Result<RequestView, Seq<char>> {
    if lower.len() == 0 {
        Err(too_few_arguments("CONFIG GET"@, Some(1u8)))
    } else {
        parameters(lower, 0, ConfigGet { save: false, appendonly: false })
    }
}

/// What the arguments of `CONFIG` come to, given the first of them in upper
/// case and those that follow it in lower case.
pub open spec fn selected(name: Seq<char>, lower: Seq<Seq<char>>) -> Result<
    RequestView,
    Seq<char>,
> {
    if name == "GET"@ {
        parsed_get(lower)
    } else {
        Err(unsupported_command(name))
    }
}

/// What the arguments of `CONFIG` come to: the first selects the
/// subcommand, whatever its case.
pub open spec fn parsed(args: Seq<Seq<char>>) -> Result<RequestView, Seq<char>> {
    if args.len() == 0 {
        Err(too_few_arguments("CONFIG"@, Some(1u8)))
    } else {
        selected(uppercase(args[0]), lowercased(args.subrange(1, args.len() as int)))
    }
}

/// Parses the arguments of `CONFIG`.
pub fn parse(args: Vec<String>) -> (result: Result<Request, ProtocolError>)
    ensures
        outcome(result) == parsed(texts(args@)),
{
    if args.len() == 0 {
        return Err(error_too_few_arguments("CONFIG", Some(1)));
    }
    let mut args = args;
    let ghost all = texts(args@);
    let name = to_uppercase(args[0].as_str());
    let following = args.split_off(1);
    assert(texts(following@) =~= all.subrange(1, all.len() as int));
    if str_eq(name.as_str(), "GET") {
        parse_config_get(following.as_slice())
    } else {
        Err(error_unsupported_command(name.as_str()))
    }
}

/// Reads the parameters of `CONFIG GET`, given in lower case.
pub fn select_parameters(lower: &Vec<String>) -> (result: Result<Request, ProtocolError>)
    ensures
        outcome(result) == parsed_get(texts(lower@)),
{
    if lower.len() == 0 {
        return Err(error_too_few_arguments("CONFIG GET", Some(1)));
    }
    let mut config = ConfigGet::new();
    let mut i: usize = 0;
    while i < lower.len()
        invariant
            i <= lower.len(),
            parsed_get(texts(lower@)) == parameters(texts(lower@), i as int, config),
        decreases lower.len() - i,
    {
        let token = lower[i].as_str();
        if str_eq(token, "save") {
            config.save = true;
        } else if str_eq(token, "appendonly") {
            config.appendonly = true;
        } else {
            let mut command = String::from_str("CONFIG GET ");
            command.append(token);
            return Err(error_unsupported_command(command.as_str()));
        }
        i += 1;
    }
    Ok(Request::CONFIG(Config::Get(config)))
}

/// Parses the arguments of `CONFIG GET`: names of parameters in any case.
pub fn parse_config_get(args: &[String]) -> (result: Result<Request, ProtocolError>)
    ensures
        outcome(result) == parsed_get(lowercased(texts(args@))),
{
    let lower = all_to_lowercase(args);
    select_parameters(&lower)
}

/// The reply to `CONFIG GET`: each parameter asked for, followed by its
/// value, in one flat sequence.
pub open spec fn config_get_reply(get: ConfigGet) -> FrameView {
    let save = if get.save {
        seq![blob("save"@), blob(""@)]
    } else {
        Seq::empty()
    };
    let appendonly = if get.appendonly {
        seq![blob("appendonly"@), blob("no"@)]
    } else {
        Seq::empty()
    };
    FrameView::Array(save + appendonly)
}

/// Handles `CONFIG` with the default values of the parameters.
pub fn default_handle(args: Request) -> (result: Result<Frame, ProtocolError>)
    requires
        args is CONFIG,
    ensures
        reply(result) == Ok::<FrameView, Seq<char>>(
            config_get_reply(args->CONFIG_0->Get_0),
        ),
{
    match args {
        Request::CONFIG(subcommand) => match subcommand {
            Config::Get(get) => default_handle_config_get(get),
        },
        _ => unreached(),
    }
}

/// Handles `CONFIG GET` with the default values of the parameters.
pub fn default_handle_config_get(args: ConfigGet) -> (result: Result<Frame, ProtocolError>)
    ensures
        reply(result) == Ok::<FrameView, Seq<char>>(config_get_reply(args)),
{
    proof {
        reveal_strlit("save");
        reveal_strlit("appendonly");
        assert("save"@.len() != "appendonly"@.len());
    }
    let mut config_map: Table<String> = Table::new();
    if args.save {
        config_map.insert(String::from_str("save"), String::from_str(""));
    }
    if args.appendonly {
        config_map.insert(String::from_str("appendonly"), String::from_str("no"));
    }
    let frame = map_to_array(config_map);
    assert(frame@->Array_0 =~= config_get_reply(args)->Array_0);
    Ok(frame)
}

/// The parameters that a list of names asks for, flag by flag: a flag is
/// set when its name is among the names.
pub open spec fn asked(lower: Seq<Seq<char>>) -> ConfigGet {
    ConfigGet { save: lower.contains("save"@), appendonly: lower.contains("appendonly"@) }
}

proof fn lemma_parameters_asked(lower: Seq<Seq<char>>, from: int, found: ConfigGet)
    requires
        0 <= from <= lower.len(),
        forall|i: int|
            0 <= i < lower.len() ==> #[trigger] lower[i] == "save"@ || lower[i] == "appendonly"@,
        found == asked(lower.take(from)),
    ensures
        parameters(lower, from, found) == Ok::<RequestView, Seq<char>>(
            RequestView::CONFIG(Config::Get(asked(lower))),
        ),
    decreases lower.len() - from,
{
    reveal_strlit("save");
    reveal_strlit("appendonly");
    assert("save"@.len() != "appendonly"@.len());
    if from == lower.len() {
        assert(lower.take(from) =~= lower);
    } else {
        let longer = lower.take(from + 1);
        let shorter = lower.take(from);
        let token = lower[from];
        assert(longer[from] == token);
        assert forall|word: Seq<char>|
            longer.contains(word) <==> shorter.contains(word) || token == word by {
            if longer.contains(word) {
                let i = choose|i: int| 0 <= i < longer.len() && longer[i] == word;
                if i < from {
                    assert(shorter[i] == word);
                }
            }
        }
        let next = if token == "save"@ {
            ConfigGet { save: true, ..found }
        } else {
            ConfigGet { appendonly: true, ..found }
        };
        lemma_parameters_asked(lower, from + 1, next);
    }
}

/// The names may come in any order and more than once: where every name is
/// that of a parameter, the flags are those of the names given, and no name
/// unsets the flag of another.
pub proof fn lemma_flags_are_those_asked(lower: Seq<Seq<char>>)
    requires
        lower.len() > 0,
        forall|i: int|
            0 <= i < lower.len() ==> #[trigger] lower[i] == "save"@ || lower[i] == "appendonly"@,
    ensures
        parsed_get(lower) == Ok::<RequestView, Seq<char>>(
            RequestView::CONFIG(Config::Get(asked(lower))),
        ),
{
    lemma_parameters_asked(lower, 0, ConfigGet { save: false, appendonly: false });
}

} // verus!
