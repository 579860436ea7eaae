use redis_protocol_bridge::commands::cluster::Cluster;
use redis_protocol_bridge::commands::command::Command;
use redis_protocol_bridge::commands::config::{Config, ConfigGet};
use redis_protocol_bridge::commands::info::Info;
use redis_protocol_bridge::commands::parse::{parse, route, Request};
use redis_protocol_bridge::commands::{cluster, command, config, get, hello, info, ping, quit, select};

fn words(items: &[&str]) -> Vec<String> {
    items.iter().map(|item| item.to_string()).collect()
}

fn message(result: Result<Request, redis_protocol_bridge::util::errors::ProtocolError>) -> String {
    result.unwrap_err().details().to_string()
}

#[test]
fn parse_get_takes_one_key() {
    assert_eq!(get::parse(words(&["mykey"])).unwrap(), Request::GET { key: "mykey".to_string() });
}

#[test]
fn parse_get_rejects_other_counts() {
    assert_eq!(message(get::parse(words(&[]))), "GET received 0 arguments, expected 1");
    assert_eq!(message(get::parse(words(&["a", "b", "c"]))), "GET received 3 arguments, expected 1");
}

#[test]
fn parse_set_takes_key_and_value() {
    assert_eq!(
        redis_protocol_bridge::commands::set::parse(words(&["k", "v"])).unwrap(),
        Request::SET { key: "k".to_string(), value: "v".to_string() }
    );
}

#[test]
fn parse_set_rejects_other_counts() {
    assert_eq!(
        message(redis_protocol_bridge::commands::set::parse(words(&["k"]))),
        "SET received 1 arguments, expected 2"
    );
    assert_eq!(
        message(redis_protocol_bridge::commands::set::parse(words(&["k", "v", "x"]))),
        "SET received 3 arguments, expected 2"
    );
}

#[test]
fn parse_ping_joins_with_one_space() {
    assert_eq!(ping::parse(words(&[])).unwrap(), Request::PING(String::new()));
    assert_eq!(ping::parse(words(&["hello"])).unwrap(), Request::PING("hello".to_string()));
    assert_eq!(
        ping::parse(words(&["hello", "big", "world"])).unwrap(),
        Request::PING("hello big world".to_string())
    );
    assert_eq!(ping::parse(words(&["", ""])).unwrap(), Request::PING(" ".to_string()));
}

#[test]
fn parse_quit_takes_nothing() {
    assert_eq!(quit::parse(words(&[])).unwrap(), Request::QUIT);
    assert_eq!(message(quit::parse(words(&["now"]))), "QUIT received 1 arguments, expected 0");
}

#[test]
fn parse_select_reads_an_index() {
    assert_eq!(select::parse(words(&["0"])).unwrap(), Request::SELECT(0));
    assert_eq!(select::parse(words(&["15"])).unwrap(), Request::SELECT(15));
    assert_eq!(select::parse(words(&["+7"])).unwrap(), Request::SELECT(7));
    assert_eq!(select::parse(words(&["007"])).unwrap(), Request::SELECT(7));
    assert_eq!(
        select::parse(words(&["18446744073709551615"])).unwrap(),
        Request::SELECT(u64::MAX)
    );
}

#[test]
fn parse_select_rejects_what_is_no_index() {
    for bad in ["", "+", "-1", "abc", "1a", " 1", "1 ", "1_0", "18446744073709551616", "٣"] {
        assert_eq!(message(select::parse(words(&[bad]))), "Failed to parse SELECT argument");
    }
}

#[test]
fn parse_select_rejects_other_counts() {
    assert_eq!(message(select::parse(words(&[]))), "SELECT received 0 arguments, expected 1");
    assert_eq!(message(select::parse(words(&["1", "2"]))), "SELECT received 2 arguments, expected 1");
}

#[test]
fn parse_cluster_selects_a_subcommand() {
    assert_eq!(cluster::parse(words(&["SHARDS"])).unwrap(), Request::CLUSTER(Cluster::SHARDS));
    assert_eq!(cluster::parse(words(&["info"])).unwrap(), Request::CLUSTER(Cluster::INFO));
    assert_eq!(cluster::parse(words(&["Nodes"])).unwrap(), Request::CLUSTER(Cluster::NODES));
    assert_eq!(cluster::parse(words(&["sLoTs"])).unwrap(), Request::CLUSTER(Cluster::SLOTS));
}

#[test]
fn parse_cluster_failures() {
    assert_eq!(message(cluster::parse(words(&[]))), "CLUSTER needs at least 1 arguments");
    assert_eq!(
        message(cluster::parse(words(&["slots", "x"]))),
        "CLUSTER SLOTS received 1 arguments, expected 0"
    );
    assert_eq!(
        message(cluster::parse(words(&["shards", "x"]))),
        "CLUSTER SHARDS received 1 arguments, expected 0"
    );
    assert_eq!(
        message(cluster::parse(words(&["nodes", "x"]))),
        "CLUSTER NODES received 1 arguments, expected 0"
    );
    assert_eq!(
        message(cluster::parse(words(&["info", "x"]))),
        "CLUSTER INFO received 1 arguments, expected 0"
    );
    assert_eq!(message(cluster::parse(words(&["reset"]))), "Unsupported command: CLUSTER RESET");
}

#[test]
fn select_cluster_subcommand_by_upper_case_name() {
    assert_eq!(cluster::select("SLOTS", 0).unwrap(), Request::CLUSTER(Cluster::SLOTS));
    assert_eq!(message(cluster::select("slots", 0)), "Unsupported command: CLUSTER slots");
    assert_eq!(
        message(cluster::select("NODES", 2)),
        "CLUSTER NODES received 2 arguments, expected 0"
    );
}

#[test]
fn parse_command_subcommands() {
    assert_eq!(command::parse(words(&[])).unwrap(), Request::COMMAND(Command::CMD));
    assert_eq!(command::parse(words(&["count"])).unwrap(), Request::COMMAND(Command::COUNT));
    assert_eq!(command::parse(words(&["LIST"])).unwrap(), Request::COMMAND(Command::LIST));
    assert_eq!(
        command::parse(words(&["docs"])).unwrap(),
        Request::COMMAND(Command::DOCS(vec![]))
    );
    assert_eq!(
        command::parse(words(&["DOCS", "get", "HELLO"])).unwrap(),
        Request::COMMAND(Command::DOCS(words(&["get", "HELLO"])))
    );
    assert_eq!(
        command::parse(words(&["Info", "GET"])).unwrap(),
        Request::COMMAND(Command::INFO(words(&["GET"])))
    );
}

#[test]
fn parse_command_names_the_unknown_subcommand_as_given() {
    assert_eq!(message(command::parse(words(&["getKeys", "x"]))), "Unknown sub command getKeys");
}

#[test]
fn select_command_subcommand_by_upper_case_name() {
    assert_eq!(
        command::select("DOCS", words(&["docs", "a"])).unwrap(),
        Request::COMMAND(Command::DOCS(words(&["a"])))
    );
    assert_eq!(message(command::select("docs", words(&["docs", "a"]))), "Unknown sub command docs");
}

#[test]
fn parse_config_get_sets_flags() {
    assert_eq!(
        config::parse(words(&["GET", "save"])).unwrap(),
        Request::CONFIG(Config::Get(ConfigGet { save: true, appendonly: false }))
    );
    assert_eq!(
        config::parse(words(&["get", "APPENDONLY", "Save", "save"])).unwrap(),
        Request::CONFIG(Config::Get(ConfigGet { save: true, appendonly: true }))
    );
    assert_eq!(
        config::parse_config_get(&words(&["appendonly"])).unwrap(),
        Request::CONFIG(Config::Get(ConfigGet { save: false, appendonly: true }))
    );
}

#[test]
fn parse_config_failures() {
    assert_eq!(message(config::parse(words(&[]))), "CONFIG needs at least 1 arguments");
    assert_eq!(message(config::parse(words(&["get"]))), "CONFIG GET needs at least 1 arguments");
    assert_eq!(message(config::parse(words(&["set", "save"]))), "Unsupported command: SET");
    assert_eq!(
        message(config::parse(words(&["get", "save", "MaxMemory", "other"]))),
        "Unsupported command: CONFIG GET maxmemory"
    );
    assert_eq!(
        message(config::select_parameters(&words(&["SAVE"]))),
        "Unsupported command: CONFIG GET SAVE"
    );
}

#[test]
fn config_get_new_asks_for_nothing() {
    assert_eq!(ConfigGet::new(), ConfigGet { save: false, appendonly: false });
}

#[test]
fn parse_hello_without_arguments() {
    assert_eq!(
        hello::parse(words(&[])).unwrap(),
        Request::HELLO { version: None, clientname: None, auth: None }
    );
}

#[test]
fn parse_hello_with_everything() {
    assert_eq!(
        hello::parse(words(&["3", "auth", "user", "secret", "SetName", "me"])).unwrap(),
        Request::HELLO {
            version: Some("3".to_string()),
            clientname: Some("me".to_string()),
            auth: Some(("user".to_string(), "secret".to_string())),
        }
    );
}

#[test]
fn parse_hello_first_token_that_is_a_keyword_is_no_version() {
    assert_eq!(
        hello::parse(words(&["AUTH", "user", "secret"])).unwrap(),
        Request::HELLO {
            version: None,
            clientname: None,
            auth: Some(("user".to_string(), "secret".to_string())),
        }
    );
    assert_eq!(
        hello::parse(words(&["setname", "me"])).unwrap(),
        Request::HELLO { version: None, clientname: Some("me".to_string()), auth: None }
    );
}

#[test]
fn parse_hello_later_keyword_replaces_earlier() {
    assert_eq!(
        hello::parse(words(&["2", "SETNAME", "a", "SETNAME", "b"])).unwrap(),
        Request::HELLO {
            version: Some("2".to_string()),
            clientname: Some("b".to_string()),
            auth: None,
        }
    );
}

#[test]
fn parse_hello_keyword_without_all_its_tokens_sets_nothing() {
    assert_eq!(
        hello::parse(words(&["3", "AUTH", "user"])).unwrap(),
        Request::HELLO { version: Some("3".to_string()), clientname: None, auth: None }
    );
    assert_eq!(
        hello::parse(words(&["3", "SETNAME"])).unwrap(),
        Request::HELLO { version: Some("3".to_string()), clientname: None, auth: None }
    );
}

#[test]
fn parse_hello_names_the_unknown_argument() {
    assert_eq!(message(hello::parse(words(&["3", "Color", "red"]))), "Unknown argument: Color");
}

#[test]
fn parse_hello_keywords_given_in_upper_case() {
    let args = words(&["3", "x", "me"]);
    let upper = words(&["3", "SETNAME", "ME"]);
    assert_eq!(
        hello::parse_keywords(args, &upper).unwrap(),
        Request::HELLO { version: Some("3".to_string()), clientname: Some("me".to_string()), auth: None }
    );
}

#[test]
fn parse_info_without_arguments_asks_for_the_default() {
    assert_eq!(info::parse(words(&[])).unwrap(), Request::INFO(Info::default()));
    assert!(Info::default().default);
    assert!(!Info::default().server);
}

#[test]
fn parse_info_sets_the_named_flags() {
    let mut expected = Info::new();
    expected.server = true;
    expected.keyspace = true;
    assert_eq!(info::parse(words(&["Server", "KEYSPACE"])).unwrap(), Request::INFO(expected));
}

#[test]
fn parse_info_each_section_sets_its_own_flag() {
    let names = [
        "server", "clients", "memory", "persistence", "stats", "replication", "cpu",
        "commandstats", "latencystats", "sentinel", "cluster", "modules", "keyspace",
        "errorstats",
    ];
    for (place, name) in names.iter().enumerate() {
        let parsed = match info::parse(words(&[name])).unwrap() {
            Request::INFO(parsed) => parsed,
            _ => panic!("wrong variant"),
        };
        let flags = [
            parsed.server, parsed.clients, parsed.memory, parsed.persistence, parsed.stats,
            parsed.replication, parsed.cpu, parsed.commandstats, parsed.latencystats,
            parsed.sentinel, parsed.cluster, parsed.modules, parsed.keyspace, parsed.errorstats,
        ];
        for (other, flag) in flags.iter().enumerate() {
            assert_eq!(*flag, other == place);
        }
        assert!(!parsed.default);
    }
}

#[test]
fn parse_info_all_leaves_the_modules_out() {
    assert_eq!(info::parse(words(&["all"])).unwrap(), Request::INFO(Info::all()));
    assert!(!Info::all().modules);
    let mut expected = Info::all();
    expected.modules = true;
    assert_eq!(info::parse(words(&["all", "modules"])).unwrap(), Request::INFO(expected));
    assert_eq!(expected, Info::everything());
}

#[test]
fn parse_info_default_keeps_what_was_set() {
    let mut expected = Info::new();
    expected.server = true;
    expected.default = true;
    assert_eq!(info::parse(words(&["server", "default"])).unwrap(), Request::INFO(expected));
    assert_eq!(info::parse(words(&["default", "server"])).unwrap(), Request::INFO(expected));
}

#[test]
fn parse_info_order_does_not_matter() {
    let one = info::parse(words(&["cpu", "all", "modules", "stats"])).unwrap();
    let other = info::parse(words(&["modules", "stats", "cpu", "all"])).unwrap();
    assert_eq!(one, other);
}

#[test]
fn parse_info_everything_wins_wherever_it_stands() {
    assert_eq!(
        info::parse(words(&["everything", "cpu"])).unwrap(),
        Request::INFO(Info::everything())
    );
    assert_eq!(
        info::parse(words(&["cpu", "Everything"])).unwrap(),
        Request::INFO(Info::everything())
    );
}

#[test]
fn parse_info_everything_ends_the_reading() {
    assert_eq!(
        info::parse(words(&["everything", "bogus"])).unwrap(),
        Request::INFO(Info::everything())
    );
    assert_eq!(
        message(info::parse(words(&["bogus", "everything"]))),
        "Asked for unknown section: bogus"
    );
}

#[test]
fn parse_info_names_the_unknown_section_in_lower_case() {
    assert_eq!(
        message(info::parse(words(&["server", "Disk", "ram"]))),
        "Asked for unknown section: disk"
    );
    assert_eq!(
        message(info::parse_sections(&words(&["SERVER"]))),
        "Asked for unknown section: SERVER"
    );
}

#[test]
fn info_union_keeps_every_flag() {
    let mut left = Info::new();
    left.server = true;
    left.modules = true;
    let joined = left | Info::default();
    assert!(joined.server && joined.modules && joined.default);
    assert!(!joined.clients);
    let mut target = left;
    target |= Info::all();
    assert_eq!(target, Info::everything());
}

#[test]
fn parse_routes_by_command_name_in_any_case() {
    assert_eq!(parse(words(&["get", "k"])).unwrap(), Request::GET { key: "k".to_string() });
    assert_eq!(
        parse(words(&["Set", "k", "v"])).unwrap(),
        Request::SET { key: "k".to_string(), value: "v".to_string() }
    );
    assert_eq!(parse(words(&["PING"])).unwrap(), Request::PING(String::new()));
    assert_eq!(parse(words(&["select", "0"])).unwrap(), Request::SELECT(0));
    assert_eq!(parse(words(&["quit"])).unwrap(), Request::QUIT);
    assert_eq!(parse(words(&["cluster", "slots"])).unwrap(), Request::CLUSTER(Cluster::SLOTS));
    assert_eq!(parse(words(&["command"])).unwrap(), Request::COMMAND(Command::CMD));
    assert_eq!(parse(words(&["info"])).unwrap(), Request::INFO(Info::default()));
    assert_eq!(
        parse(words(&["config", "get", "save"])).unwrap(),
        Request::CONFIG(Config::Get(ConfigGet { save: true, appendonly: false }))
    );
    assert_eq!(
        parse(words(&["hello", "3"])).unwrap(),
        Request::HELLO { version: Some("3".to_string()), clientname: None, auth: None }
    );
}

#[test]
fn parse_empty_query_fails() {
    assert_eq!(message(parse(words(&[]))), "Empty query");
}

#[test]
fn parse_names_the_unsupported_command_and_its_arguments() {
    assert_eq!(message(parse(words(&["Del", "a", "b"]))), "Unsupported command: Del a b");
    assert_eq!(message(parse(words(&["flushall"]))), "Unsupported command: flushall ");
}

#[test]
fn route_takes_the_name_in_upper_case() {
    assert_eq!(route("GET", "get", words(&["k"])).unwrap(), Request::GET { key: "k".to_string() });
    assert_eq!(message(route("get", "get", words(&["k"]))), "Unsupported command: get k");
}

#[test]
fn parse_twice_gives_equal_requests() {
    let query = words(&["HELLO", "3", "AUTH", "u", "p", "SETNAME", "n"]);
    assert_eq!(parse(query.clone()).unwrap(), parse(query).unwrap());
    let failing = words(&["INFO", "nothing"]);
    assert_eq!(message(parse(failing.clone())), message(parse(failing)));
}

#[test]
fn parse_config_get_order_and_repeats_do_not_matter() {
    let one = config::parse(words(&["get", "save", "appendonly"])).unwrap();
    let other = config::parse(words(&["get", "appendonly", "save", "appendonly"])).unwrap();
    assert_eq!(one, other);
}

#[test]
fn parse_info_repeats_do_not_matter() {
    let one = info::parse(words(&["cpu", "memory"])).unwrap();
    let other = info::parse(words(&["memory", "cpu", "memory", "cpu"])).unwrap();
    assert_eq!(one, other);
}

#[test]
fn parse_info_no_token_unsets_a_flag() {
    let sections = [
        "default", "server", "clients", "memory", "persistence", "stats", "replication", "cpu",
        "commandstats", "latencystats", "sentinel", "cluster", "modules", "keyspace",
        "errorstats", "all",
    ];
    for first in sections {
        for second in sections {
            let alone = match info::parse(words(&[first])).unwrap() {
                Request::INFO(flags) => flags,
                _ => panic!("wrong variant"),
            };
            let both = match info::parse(words(&[first, second])).unwrap() {
                Request::INFO(flags) => flags,
                _ => panic!("wrong variant"),
            };
            assert_eq!(alone | both, both);
        }
    }
}

#[test]
fn parse_hello_version_may_be_any_token() {
    assert_eq!(
        hello::parse(words(&["three"])).unwrap(),
        Request::HELLO { version: Some("three".to_string()), clientname: None, auth: None }
    );
    assert_eq!(
        hello::parse(words(&["2", "auth", "setname", "auth"])).unwrap(),
        Request::HELLO {
            version: Some("2".to_string()),
            clientname: None,
            auth: Some(("setname".to_string(), "auth".to_string())),
        }
    );
}
