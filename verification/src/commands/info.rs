use crate::commands::parse::{outcome, Request, RequestView};
use crate::util::convert::{reply, AsFrame, Frame, FrameView};
use crate::util::errors::ProtocolError;
use crate::util::table::Table;
use crate::util::text::{all_to_lowercase, lowercased, str_eq, texts};
use vstd::pervasive::unreached;
use vstd::prelude::*;
use vstd::seq_lib::to_multiset_contains;
use vstd::string::*;

verus! {

/// The sections that an `INFO` request asks for, one flag for each.
#[derive(Debug, Clone, Copy, PartialEq, Eq)]
pub struct Info {
    /// The default set of sections. Which sections those are is up to the
    /// server, so this is a flag like any other.
    pub default: bool,
    pub server: bool,
    pub clients: bool,
    pub memory: bool,
    pub persistence: bool,
    pub stats: bool,
    pub replication: bool,
    pub cpu: bool,
    pub commandstats: bool,
    pub latencystats: bool,
    pub sentinel: bool,
    pub cluster: bool,
    pub modules: bool,
    pub keyspace: bool,
    pub errorstats: bool,
}

impl Info {
    /// No section.
    pub open spec fn none() -> Info {
        Info {
            default: false,
            server: false,
            clients: false,
            memory: false,
            persistence: false,
            stats: false,
            replication: false,
            cpu: false,
            commandstats: false,
            latencystats: false,
            sentinel: false,
            cluster: false,
            modules: false,
            keyspace: false,
            errorstats: false,
        }
    }

    /// The default set of sections and no other.
    pub open spec fn only_default() -> Info {
        Info { default: true, ..Info::none() }
    }

    /// Every section.
    pub open spec fn every() -> Info {
        Info {
            default: true,
            server: true,
            clients: true,
            memory: true,
            persistence: true,
            stats: true,
            replication: true,
            cpu: true,
            commandstats: true,
            latencystats: true,
            sentinel: true,
            cluster: true,
            modules: true,
            keyspace: true,
            errorstats: true,
        }
    }

    /// Every section but the modules.
    pub open spec fn all_but_modules() -> Info {
        Info { modules: false, ..Info::every() }
    }

    /// The sections of either: a flag is set where one of the two sets it.
    pub open spec fn union(self, other: Info) -> Info {
        Info {
            default: self.default || other.default,
            server: self.server || other.server,
            clients: self.clients || other.clients,
            memory: self.memory || other.memory,
            persistence: self.persistence || other.persistence,
            stats: self.stats || other.stats,
            replication: self.replication || other.replication,
            cpu: self.cpu || other.cpu,
            commandstats: self.commandstats || other.commandstats,
            latencystats: self.latencystats || other.latencystats,
            sentinel: self.sentinel || other.sentinel,
            cluster: self.cluster || other.cluster,
            modules: self.modules || other.modules,
            keyspace: self.keyspace || other.keyspace,
            errorstats: self.errorstats || other.errorstats,
        }
    }

    /// An instance with no flag set.
    pub fn new() -> (info: Info)
        ensures
            info == Info::none(),
    {
        Info {
            default: false,
            server: false,
            clients: false,
            memory: false,
            persistence: false,
            stats: false,
            replication: false,
            cpu: false,
            commandstats: false,
            latencystats: false,
            sentinel: false,
            cluster: false,
            modules: false,
            keyspace: false,
            errorstats: false,
        }
    }

    /// An instance with every flag set but that of the modules.
    pub fn all() -> (info: Info)
        ensures
            info == Info::all_but_modules(),
    {
        Info {
            default: true,
            server: true,
            clients: true,
            memory: true,
            persistence: true,
            stats: true,
            replication: true,
            cpu: true,
            commandstats: true,
            latencystats: true,
            sentinel: true,
            cluster: true,
            modules: false,
            keyspace: true,
            errorstats: true,
        }
    }

    /// An instance with every flag set.
    pub fn everything() -> (info: Info)
        ensures
            info == Info::every(),
    {
        Info {
            default: true,
            server: true,
            clients: true,
            memory: true,
            persistence: true,
            stats: true,
            replication: true,
            cpu: true,
            commandstats: true,
            latencystats: true,
            sentinel: true,
            cluster: true,
            modules: true,
            keyspace: true,
            errorstats: true,
        }
    }
}

impl Default for Info {
    /// An instance with only the flag of the default sections set.
    fn default() -> (info: Info)
        ensures
            info == Info::only_default(),
    {
        Info {
            default: true,
            server: false,
            clients: false,
            memory: false,
            persistence: false,
            stats: false,
            replication: false,
            cpu: false,
            commandstats: false,
            latencystats: false,
            sentinel: false,
            cluster: false,
            modules: false,
            keyspace: false,
            errorstats: false,
        }
    }
}

impl core::ops::BitOr for Info {
    type Output = Info;

    /// The sections of either operand. No flag that one operand sets is
    /// lost.
    fn bitor(self, rhs: Info) -> (info: Info) {
        Info {
            default: self.default || rhs.default,
            server: self.server || rhs.server,
            clients: self.clients || rhs.clients,
            memory: self.memory || rhs.memory,
            persistence: self.persistence || rhs.persistence,
            stats: self.stats || rhs.stats,
            replication: self.replication || rhs.replication,
            cpu: self.cpu || rhs.cpu,
            commandstats: self.commandstats || rhs.commandstats,
            latencystats: self.latencystats || rhs.latencystats,
            sentinel: self.sentinel || rhs.sentinel,
            cluster: self.cluster || rhs.cluster,
            modules: self.modules || rhs.modules,
            keyspace: self.keyspace || rhs.keyspace,
            errorstats: self.errorstats || rhs.errorstats,
        }
    }
}

impl vstd::std_specs::ops::BitOrSpecImpl for Info {
    open spec fn obeys_bitor_spec() -> bool {
        true
    }

    open spec fn bitor_req(self, rhs: Info) -> bool {
        true
    }

    /// What `|` means in contracts: the union of the two.
    open spec fn bitor_spec(self, rhs: Info) -> Info {
        self.union(rhs)
    }
}

impl core::ops::BitOrAssign for Info {
    /// Adds the sections of the other operand. No flag that was set is
    /// lost.
    fn bitor_assign(&mut self, rhs: Info)
        ensures
            *final(self) == old(self).union(rhs),
    {
        *self = *self | rhs;
    }
}

/// The sections that one token in lower case asks for; none if the token
/// is not in the vocabulary.
#[verifier::opaque]
pub open spec fn named(token: Seq<char>) -> Option<Info> {
    if token == "all"@ {
        Some(Info::all_but_modules())
    } else if token == "everything"@ {
        Some(Info::every())
    } else if token == "default"@ {
        Some(Info::only_default())
    } else if token == "server"@ {
        Some(Info { server: true, ..Info::none() })
    } else if token == "clients"@ {
        Some(Info { clients: true, ..Info::none() })
    } else if token == "memory"@ {
        Some(Info { memory: true, ..Info::none() })
    } else if token == "persistence"@ {
        Some(Info { persistence: true, ..Info::none() })
    } else if token == "stats"@ {
        Some(Info { stats: true, ..Info::none() })
    } else if token == "replication"@ {
        Some(Info { replication: true, ..Info::none() })
    } else if token == "cpu"@ {
        Some(Info { cpu: true, ..Info::none() })
    } else if token == "commandstats"@ {
        Some(Info { commandstats: true, ..Info::none() })
    } else if token == "latencystats"@ {
        Some(Info { latencystats: true, ..Info::none() })
    } else if token == "sentinel"@ {
        Some(Info { sentinel: true, ..Info::none() })
    } else if token == "cluster"@ {
        Some(Info { cluster: true, ..Info::none() })
    } else if token == "modules"@ {
        Some(Info { modules: true, ..Info::none() })
    } else if token == "keyspace"@ {
        Some(Info { keyspace: true, ..Info::none() })
    } else if token == "errorstats"@ {
        Some(Info { errorstats: true, ..Info::none() })
    } else {
        None
    }
}

/// What the tokens from a place on come to, given the sections found before
/// that place. Each token adds its sections to those found; `everything`
/// ends the reading with every section; a token that is not in the
/// vocabulary is a failure that names it.
pub open spec fn sections(lower: Seq<Seq<char>>, from: int, found: Info) -> Result<
    RequestView,
    Seq<char>,
>
    decreases lower.len() - from,
{
    if from < 0 || from >= lower.len() {
        Ok(RequestView::INFO(found))
    } else if lower[from] == "everything"@ {
        Ok(RequestView::INFO(Info::every()))
    } else {
        match named(lower[from]) {
            Some(info) => sections(lower, from + 1, found.union(info)),
            None => Err("Asked for unknown section: "@ + lower[from]),
        }
    }
}

/// What the arguments of `INFO` come to, given in lower case. No argument
/// asks for the default sections.
pub open spec fn parsed(lower: Seq<Seq<char>>) -> Result<RequestView, Seq<char>> {
    if lower.len() == 0 {
        Ok(RequestView::INFO(Info::only_default()))
    } else {
        sections(lower, 0, Info::none())
    }
}

/// The sections that one token in lower case asks for.
fn section(token: &str) -> (info: Option<Info>)
    ensures
        info == named(token@),
{
    reveal(named);
    if str_eq(token, "all") {
        Some(Info::all())
    } else if str_eq(token, "everything") {
        Some(Info::everything())
    } else if str_eq(token, "default") {
        Some(Info::default())
    } else if str_eq(token, "server") {
        let mut info = Info::new();
        info.server = true;
        Some(info)
    } else if str_eq(token, "clients") {
        let mut info = Info::new();
        info.clients = true;
        Some(info)
    } else if str_eq(token, "memory") {
        let mut info = Info::new();
        info.memory = true;
        Some(info)
    } else if str_eq(token, "persistence") {
        let mut info = Info::new();
        info.persistence = true;
        Some(info)
    } else if str_eq(token, "stats") {
        let mut info = Info::new();
        info.stats = true;
        Some(info)
    } else if str_eq(token, "replication") {
        let mut info = Info::new();
        info.replication = true;
        Some(info)
    } else if str_eq(token, "cpu") {
        let mut info = Info::new();
        info.cpu = true;
        Some(info)
    } else if str_eq(token, "commandstats") {
        let mut info = Info::new();
        info.commandstats = true;
        Some(info)
    } else if str_eq(token, "latencystats") {
        let mut info = Info::new();
        info.latencystats = true;
        Some(info)
    } else if str_eq(token, "sentinel") {
        let mut info = Info::new();
        info.sentinel = true;
        Some(info)
    } else if str_eq(token, "cluster") {
        let mut info = Info::new();
        info.cluster = true;
        Some(info)
    } else if str_eq(token, "modules") {
        let mut info = Info::new();
        info.modules = true;
        Some(info)
    } else if str_eq(token, "keyspace") {
        let mut info = Info::new();
        info.keyspace = true;
        Some(info)
    } else if str_eq(token, "errorstats") {
        let mut info = Info::new();
        info.errorstats = true;
        Some(info)
    } else {
        None
    }
}

/// Parses the arguments of `INFO`, given in lower case.
pub fn parse_sections(lower: &Vec<String>) -> (result: Result<Request, ProtocolError>)
    ensures
        outcome(result) == parsed(texts(lower@)),
{
    if lower.len() == 0 {
        return Ok(Request::INFO(Info::default()));
    }
    let mut ret = Info::new();
    let mut i: usize = 0;
    while i < lower.len()
        invariant
            i <= lower.len(),
            parsed(texts(lower@)) == sections(texts(lower@), i as int, ret),
        decreases lower.len() - i,
    {
        let token = lower[i].as_str();
        if str_eq(token, "everything") {
            return Ok(Request::INFO(Info::everything()));
        }
        match section(token) {
            Some(info) => {
                ret = ret | info;
            },
            None => {
                let mut details = String::from_str("Asked for unknown section: ");
                details.append(token);
                return Err(ProtocolError::new(details));
            },
        }
        i += 1;
    }
    Ok(Request::INFO(ret))
}

/// Parses the arguments of `INFO`: names of sections in any case, in any
/// order.
pub fn parse(args: Vec<String>) -> (result: Result<Request, ProtocolError>)
    ensures
        outcome(result) == parsed(lowercased(texts(args@))),
{
    let lower = all_to_lowercase(args.as_slice());
    parse_sections(&lower)
}

/// Whether a token in lower case is in the vocabulary.
pub open spec fn known(token: Seq<char>) -> bool {
    named(token) is Some
}

/// The flags that one token of the vocabulary sets, each stated by the
/// tokens that set it.
pub open spec fn set_by(token: Seq<char>) -> Info {
    Info {
        default: token == "default"@ || token == "all"@ || token == "everything"@,
        server: token == "server"@ || token == "all"@ || token == "everything"@,
        clients: token == "clients"@ || token == "all"@ || token == "everything"@,
        memory: token == "memory"@ || token == "all"@ || token == "everything"@,
        persistence: token == "persistence"@ || token == "all"@ || token == "everything"@,
        stats: token == "stats"@ || token == "all"@ || token == "everything"@,
        replication: token == "replication"@ || token == "all"@ || token == "everything"@,
        cpu: token == "cpu"@ || token == "all"@ || token == "everything"@,
        commandstats: token == "commandstats"@ || token == "all"@ || token == "everything"@,
        latencystats: token == "latencystats"@ || token == "all"@ || token == "everything"@,
        sentinel: token == "sentinel"@ || token == "all"@ || token == "everything"@,
        cluster: token == "cluster"@ || token == "all"@ || token == "everything"@,
        modules: token == "modules"@ || token == "everything"@,
        keyspace: token == "keyspace"@ || token == "all"@ || token == "everything"@,
        errorstats: token == "errorstats"@ || token == "all"@ || token == "everything"@,
    }
}

/// Whether a word is among the tokens.
#[verifier::opaque]
pub open spec fn among(lower: Seq<Seq<char>>, word: Seq<char>) -> bool {
    lower.contains(word)
}

/// The sections that a list of tokens asks for, flag by flag: a flag is set
/// when its own name is among the tokens, or `all` is, which stands for
/// every section but the modules.
pub open spec fn asked(lower: Seq<Seq<char>>) -> Info {
    Info {
        default: among(lower, "default"@) || among(lower, "all"@),
        server: among(lower, "server"@) || among(lower, "all"@),
        clients: among(lower, "clients"@) || among(lower, "all"@),
        memory: among(lower, "memory"@) || among(lower, "all"@),
        persistence: among(lower, "persistence"@) || among(lower, "all"@),
        stats: among(lower, "stats"@) || among(lower, "all"@),
        replication: among(lower, "replication"@) || among(lower, "all"@),
        cpu: among(lower, "cpu"@) || among(lower, "all"@),
        commandstats: among(lower, "commandstats"@) || among(lower, "all"@),
        latencystats: among(lower, "latencystats"@) || among(lower, "all"@),
        sentinel: among(lower, "sentinel"@) || among(lower, "all"@),
        cluster: among(lower, "cluster"@) || among(lower, "all"@),
        modules: among(lower, "modules"@),
        keyspace: among(lower, "keyspace"@) || among(lower, "all"@),
        errorstats: among(lower, "errorstats"@) || among(lower, "all"@),
    }
}

/// A token of the vocabulary sets the flags of its name and no other, and
/// the tokens of the vocabulary differ from one another.
proof fn lemma_named(token: Seq<char>)
    ensures
        known(token) ==> named(token) == Some(set_by(token)),
        !known(token) ==> set_by(token) == Info::none() && token != "everything"@,
{
    reveal(named);
    reveal_strlit("all");
    reveal_strlit("everything");
    reveal_strlit("default");
    reveal_strlit("server");
    reveal_strlit("clients");
    reveal_strlit("memory");
    reveal_strlit("persistence");
    reveal_strlit("stats");
    reveal_strlit("replication");
    reveal_strlit("cpu");
    reveal_strlit("commandstats");
    reveal_strlit("latencystats");
    reveal_strlit("sentinel");
    reveal_strlit("cluster");
    reveal_strlit("modules");
    reveal_strlit("keyspace");
    reveal_strlit("errorstats");
    assert("all"@.len() == 3 && "all"@[0] == 'a' && "all"@[2] == 'l');
    assert("everything"@.len() == 10 && "everything"@[0] == 'e' && "everything"@[2] == 'e');
    assert("default"@.len() == 7 && "default"@[0] == 'd' && "default"@[2] == 'f');
    assert("server"@.len() == 6 && "server"@[0] == 's' && "server"@[2] == 'r');
    assert("clients"@.len() == 7 && "clients"@[0] == 'c' && "clients"@[2] == 'i');
    assert("memory"@.len() == 6 && "memory"@[0] == 'm' && "memory"@[2] == 'm');
    assert("persistence"@.len() == 11 && "persistence"@[0] == 'p' && "persistence"@[2] == 'r');
    assert("stats"@.len() == 5 && "stats"@[0] == 's' && "stats"@[2] == 'a');
    assert("replication"@.len() == 11 && "replication"@[0] == 'r' && "replication"@[2] == 'p');
    assert("cpu"@.len() == 3 && "cpu"@[0] == 'c' && "cpu"@[2] == 'u');
    assert("commandstats"@.len() == 12 && "commandstats"@[0] == 'c' && "commandstats"@[2] == 'm');
    assert("latencystats"@.len() == 12 && "latencystats"@[0] == 'l' && "latencystats"@[2] == 't');
    assert("sentinel"@.len() == 8 && "sentinel"@[0] == 's' && "sentinel"@[2] == 'n');
    assert("cluster"@.len() == 7 && "cluster"@[0] == 'c' && "cluster"@[2] == 'u');
    assert("modules"@.len() == 7 && "modules"@[0] == 'm' && "modules"@[2] == 'd');
    assert("keyspace"@.len() == 8 && "keyspace"@[0] == 'k' && "keyspace"@[2] == 'y');
    assert("errorstats"@.len() == 10 && "errorstats"@[0] == 'e' && "errorstats"@[2] == 'r');
    if token == "all"@ {
        assert(named(token) == Some(set_by(token)));
    } else if token == "everything"@ {
        assert(named(token) == Some(set_by(token)));
    } else if token == "default"@ {
        assert(named(token) == Some(set_by(token)));
    } else if token == "server"@ {
        assert(named(token) == Some(set_by(token)));
    } else if token == "clients"@ {
        assert(named(token) == Some(set_by(token)));
    } else if token == "memory"@ {
        assert(named(token) == Some(set_by(token)));
    } else if token == "persistence"@ {
        assert(named(token) == Some(set_by(token)));
    } else if token == "stats"@ {
        assert(named(token) == Some(set_by(token)));
    } else if token == "replication"@ {
        assert(named(token) == Some(set_by(token)));
    } else if token == "cpu"@ {
        assert(named(token) == Some(set_by(token)));
    } else if token == "commandstats"@ {
        assert(named(token) == Some(set_by(token)));
    } else if token == "latencystats"@ {
        assert(named(token) == Some(set_by(token)));
    } else if token == "sentinel"@ {
        assert(named(token) == Some(set_by(token)));
    } else if token == "cluster"@ {
        assert(named(token) == Some(set_by(token)));
    } else if token == "modules"@ {
        assert(named(token) == Some(set_by(token)));
    } else if token == "keyspace"@ {
        assert(named(token) == Some(set_by(token)));
    } else if token == "errorstats"@ {
        assert(named(token) == Some(set_by(token)));
    } else {
        assert(named(token) is None);
    }
}

proof fn lemma_among_step(lower: Seq<Seq<char>>, from: int, word: Seq<char>)
    requires
        0 <= from < lower.len(),
    ensures
        among(lower.take(from + 1), word) <==> among(lower.take(from), word) || lower[from]
            == word,
{
    reveal(among);
    let shorter = lower.take(from);
    let longer = lower.take(from + 1);
    if longer.contains(word) {
        let i = choose|i: int| 0 <= i < longer.len() && longer[i] == word;
        if i < from {
            assert(shorter[i] == word);
        }
    }
    if lower[from] == word {
        assert(longer[from] == word);
    }
}

/// One more token adds the flags that it sets to those asked for before.
proof fn lemma_asked_step(lower: Seq<Seq<char>>, from: int)
    requires
        0 <= from < lower.len(),
        lower[from] != "everything"@,
    ensures
        asked(lower.take(from + 1)) == asked(lower.take(from)).union(set_by(lower[from])),
{
    lemma_among_step(lower, from, "all"@);
    lemma_among_step(lower, from, "default"@);
    lemma_among_step(lower, from, "server"@);
    lemma_among_step(lower, from, "clients"@);
    lemma_among_step(lower, from, "memory"@);
    lemma_among_step(lower, from, "persistence"@);
    lemma_among_step(lower, from, "stats"@);
    lemma_among_step(lower, from, "replication"@);
    lemma_among_step(lower, from, "cpu"@);
    lemma_among_step(lower, from, "commandstats"@);
    lemma_among_step(lower, from, "latencystats"@);
    lemma_among_step(lower, from, "sentinel"@);
    lemma_among_step(lower, from, "cluster"@);
    lemma_among_step(lower, from, "modules"@);
    lemma_among_step(lower, from, "keyspace"@);
    lemma_among_step(lower, from, "errorstats"@);
}

proof fn lemma_sections_asked(lower: Seq<Seq<char>>, from: int, found: Info)
    requires
        0 <= from <= lower.len(),
        forall|i: int| 0 <= i < lower.len() ==> known(#[trigger] lower[i]),
        !lower.contains("everything"@),
        found == asked(lower.take(from)),
    ensures
        sections(lower, from, found) == Ok::<RequestView, Seq<char>>(
            RequestView::INFO(asked(lower)),
        ),
    decreases lower.len() - from,
{
    if from == lower.len() {
        assert(lower.take(from) =~= lower);
    } else {
        let token = lower[from];
        assert(token != "everything"@) by {
            if token == "everything"@ {
                assert(lower.contains("everything"@));
            }
        }
        lemma_named(token);
        lemma_asked_step(lower, from);
        lemma_sections_asked(lower, from + 1, found.union(set_by(token)));
    }
}

/// The tokens may come in any order: where every token is in the
/// vocabulary and none is `everything`, the flags are those that the tokens
/// ask for, whatever their order and however often each occurs.
pub proof fn lemma_flags_are_those_asked(lower: Seq<Seq<char>>)
    requires
        lower.len() > 0,
        forall|i: int| 0 <= i < lower.len() ==> known(#[trigger] lower[i]),
        !lower.contains("everything"@),
    ensures
        parsed(lower) == Ok::<RequestView, Seq<char>>(RequestView::INFO(asked(lower))),
{
    assert(asked(lower.take(0)) == Info::none()) by {
        reveal(among);
    }
    lemma_sections_asked(lower, 0, Info::none());
}

proof fn lemma_sections_everything(lower: Seq<Seq<char>>, from: int, found: Info, at: int)
    requires
        0 <= from <= at < lower.len(),
        forall|i: int| 0 <= i < lower.len() ==> known(#[trigger] lower[i]),
        lower[at] == "everything"@,
    ensures
        sections(lower, from, found) == Ok::<RequestView, Seq<char>>(
            RequestView::INFO(Info::every()),
        ),
    decreases at - from,
{
    if lower[from] != "everything"@ {
        lemma_sections_everything(lower, from + 1, found.union(named(lower[from])->0), at);
    }
}

/// `everything` wins wherever it stands: where every token is in the
/// vocabulary and one of them is `everything`, every flag is set.
pub proof fn lemma_everything_wins(lower: Seq<Seq<char>>)
    requires
        forall|i: int| 0 <= i < lower.len() ==> known(#[trigger] lower[i]),
        lower.contains("everything"@),
    ensures
        parsed(lower) == Ok::<RequestView, Seq<char>>(RequestView::INFO(Info::every())),
{
    let at = choose|i: int| 0 <= i < lower.len() && lower[i] == "everything"@;
    lemma_sections_everything(lower, 0, Info::none(), at);
}

proof fn lemma_sections_unknown(lower: Seq<Seq<char>>, from: int, found: Info, at: int)
    requires
        0 <= from <= at < lower.len(),
        !known(lower[at]),
        !lower.contains("everything"@),
    ensures
        sections(lower, from, found) is Err,
    decreases at - from,
{
    assert(lower[from] != "everything"@) by {
        if lower[from] == "everything"@ {
            assert(lower.contains("everything"@));
        }
    }
    if from < at && known(lower[from]) {
        lemma_sections_unknown(lower, from + 1, found.union(named(lower[from])->0), at);
    }
}

/// Where a token is not in the vocabulary and none is `everything`, parsing
/// fails, wherever the token stands.
pub proof fn lemma_unknown_section_fails(lower: Seq<Seq<char>>)
    requires
        exists|i: int| 0 <= i < lower.len() && !known(#[trigger] lower[i]),
        !lower.contains("everything"@),
    ensures
        parsed(lower) is Err,
{
    let at = choose|i: int| 0 <= i < lower.len() && !known(#[trigger] lower[i]);
    lemma_sections_unknown(lower, 0, Info::none(), at);
}

proof fn lemma_same_tokens(a: Seq<Seq<char>>, b: Seq<Seq<char>>, word: Seq<char>)
    requires
        a.to_set() == b.to_set(),
    ensures
        a.contains(word) <==> b.contains(word),
        among(a, word) <==> among(b, word),
{
    reveal(among);
    assert(b.to_set().contains(word) <==> b.contains(word));
}

/// The order of the tokens does not matter, nor how often a token occurs.
/// Two lists that hold the same tokens, as any two orders of one list do,
/// both fail or both come to the same flags. This is stated of the lists
/// that do not hold both `everything` and a token outside the vocabulary: of
/// those two, the one that comes first decides.
pub proof fn lemma_order_independent(a: Seq<Seq<char>>, b: Seq<Seq<char>>)
    requires
        a.to_set() == b.to_set(),
        !(a.contains("everything"@) && exists|i: int|
            0 <= i < a.len() && !known(#[trigger] a[i])),
    ensures
        parsed(a) is Ok <==> parsed(b) is Ok,
        parsed(a) is Ok ==> parsed(a) == parsed(b),
{
    lemma_same_tokens(a, b, "everything"@);
    if exists|i: int| 0 <= i < a.len() && !known(#[trigger] a[i]) {
        let i = choose|i: int| 0 <= i < a.len() && !known(#[trigger] a[i]);
        lemma_same_tokens(a, b, a[i]);
        lemma_unknown_section_fails(a);
        lemma_unknown_section_fails(b);
    } else {
        assert forall|j: int| 0 <= j < b.len() implies known(#[trigger] b[j]) by {
            lemma_same_tokens(a, b, b[j]);
        }
        if a.contains("everything"@) {
            lemma_everything_wins(a);
            lemma_everything_wins(b);
        } else if a.len() == 0 {
            if b.len() > 0 {
                lemma_same_tokens(a, b, b[0]);
            }
        } else {
            lemma_same_tokens(a, b, a[0]);
            lemma_flags_are_those_asked(a);
            lemma_flags_are_those_asked(b);
            lemma_same_tokens(a, b, "all"@);
            lemma_same_tokens(a, b, "default"@);
            lemma_same_tokens(a, b, "server"@);
            lemma_same_tokens(a, b, "clients"@);
            lemma_same_tokens(a, b, "memory"@);
            lemma_same_tokens(a, b, "persistence"@);
            lemma_same_tokens(a, b, "stats"@);
            lemma_same_tokens(a, b, "replication"@);
            lemma_same_tokens(a, b, "cpu"@);
            lemma_same_tokens(a, b, "commandstats"@);
            lemma_same_tokens(a, b, "latencystats"@);
            lemma_same_tokens(a, b, "sentinel"@);
            lemma_same_tokens(a, b, "cluster"@);
            lemma_same_tokens(a, b, "modules"@);
            lemma_same_tokens(a, b, "keyspace"@);
            lemma_same_tokens(a, b, "errorstats"@);
        }
    }
}

/// Two orders of one list hold the same tokens.
pub proof fn lemma_permutation_holds_the_same(a: Seq<Seq<char>>, b: Seq<Seq<char>>)
    requires
        a.to_multiset() == b.to_multiset(),
    ensures
        a.to_set() == b.to_set(),
{
    assert forall|word: Seq<char>| a.to_set().contains(word) <==> b.to_set().contains(word) by {
        to_multiset_contains(a, word);
        to_multiset_contains(b, word);
    }
}

/// Where the union of three sets of flags adds nothing to the third, the
/// union of the first and the third adds nothing to it either.
proof fn lemma_union_absorbs(found: Info, added: Info, all: Info)
    requires
        found.union(added).union(all) == all,
    ensures
        found.union(all) == all,
{
}

/// A flag that is set stays set: whatever tokens follow, the flags that
/// parsing comes to hold every flag found before.
pub proof fn lemma_flags_never_unset(lower: Seq<Seq<char>>, from: int, found: Info)
    requires
        sections(lower, from, found) is Ok,
    ensures
        sections(lower, from, found)->Ok_0 is INFO,
        found.union(sections(lower, from, found)->Ok_0->INFO_0) == sections(
            lower,
            from,
            found,
        )->Ok_0->INFO_0,
    decreases lower.len() - from,
{
    if 0 <= from < lower.len() && lower[from] != "everything"@ {
        let added = named(lower[from])->0;
        let next = found.union(added);
        lemma_flags_never_unset(lower, from + 1, next);
        let all = sections(lower, from + 1, next)->Ok_0->INFO_0;
        lemma_union_absorbs(found, added, all);
    }
}

/// The reply to `INFO`: a mapping without entries.
pub open spec fn default_reply() -> FrameView {
    FrameView::Mapping(Seq::empty())
}

/// Handles `INFO`: whatever sections are asked for, the reply is a mapping
/// without entries.
pub fn default_handle(args: Request) -> (result: Result<Frame, ProtocolError>)
    requires
        args is INFO,
    ensures
        reply(result) == Ok::<FrameView, Seq<char>>(default_reply()),
{
    match args {
        Request::INFO(_) => {
            let empty: Table<String> = Table::new();
            let frame = empty.as_frame();
            assert(frame@->Mapping_0 =~= Seq::<(FrameView, FrameView)>::empty());
            Ok(frame)
        },
        _ => unreached(),
    }
}

} // verus!
