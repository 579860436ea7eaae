use crate::commands::parse::{outcome, Request, RequestView};
use crate::util::convert::{blob, flattened, map_to_array, reply, AsFrame, Frame, FrameView};
use crate::util::errors::{
    error_too_few_arguments, error_wrong_arity, too_few_arguments, wrong_arity, ProtocolError,
};
use crate::util::table::Table;
use crate::util::text::{str_eq, texts, to_uppercase, uppercase};
use vstd::pervasive::unreached;
use vstd::prelude::*;
use vstd::string::*;

verus! {

/// The subcommands of `CLUSTER`.
#[derive(Debug, Clone, Copy, PartialEq, Eq)]
pub enum Cluster {
    INFO,
    SHARDS,
    NODES,
    SLOTS,
}

/// The number of hash slots of a cluster.
pub const SLOT_COUNT: u16 = 16384;

/// Reads the constant `redis_protocol::types::REDIS_CLUSTER_SLOTS`.
/// Trusted: its value is the number of hash slots of a cluster, 16384.
#[verifier::external_body]
fn slot_count() -> (slots: u16)
    ensures
        slots == SLOT_COUNT,
{
    redis_protocol::types::REDIS_CLUSTER_SLOTS
}

/// What a subcommand that takes no arguments comes to, given the number of
/// arguments that follow it.
pub open spec fn without_arguments(subcommand: Cluster, name: Seq<char>, following: nat) -> Result<
    RequestView,
    Seq<char>,
> {
    if following > 0 {
        Err(wrong_arity(name, following, 0))
    } else {
        Ok(RequestView::CLUSTER(subcommand))
    }
}

/// What the arguments of `CLUSTER` come to, given the first of them in
/// upper case and the number of those that follow it.
pub open spec fn selected(name: Seq<char>, following: nat) -> Result<RequestView, Seq<char>> {
    if name == "SHARDS"@ {
        without_arguments(Cluster::SHARDS, "CLUSTER SHARDS"@, following)
    } else if name == "INFO"@ {
        without_arguments(Cluster::INFO, "CLUSTER INFO"@, following)
    } else if name == "NODES"@ {
        without_arguments(Cluster::NODES, "CLUSTER NODES"@, following)
    } else if name == "SLOTS"@ {
        without_arguments(Cluster::SLOTS, "CLUSTER SLOTS"@, following)
    } else {
        Err("Unsupported command: CLUSTER "@ + name)
    }
}

/// What the arguments of `CLUSTER` come to: the first selects the
/// subcommand, whatever its case, and none may follow it.
pub open spec fn parsed(args: Seq<Seq<char>>) -> Result<RequestView, Seq<char>> {
    if args.len() == 0 {
        Err(too_few_arguments("CLUSTER"@, Some(1u8)))
    } else {
        selected(uppercase(args[0]), (args.len() - 1) as nat)
    }
}

/// Selects a subcommand that takes no arguments, given its name and the
/// number of arguments that follow it.
fn select_without_arguments(subcommand: Cluster, name: &str, following: usize) -> (result: Result<
    Request,
    ProtocolError,
>)
    ensures
        outcome(result) == without_arguments(subcommand, name@, following as nat),
{
    if following > 0 {
        Err(error_wrong_arity(name, following, 0))
    } else {
        Ok(Request::CLUSTER(subcommand))
    }
}

/// Selects the subcommand by its name in upper case, given the number of
/// arguments that follow the name.
pub fn select(name: &str, following: usize) -> (result: Result<Request, ProtocolError>)
    ensures
        outcome(result) == selected(name@, following as nat),
{
    if str_eq(name, "SHARDS") {
        select_without_arguments(Cluster::SHARDS, "CLUSTER SHARDS", following)
    } else if str_eq(name, "INFO") {
        select_without_arguments(Cluster::INFO, "CLUSTER INFO", following)
    } else if str_eq(name, "NODES") {
        select_without_arguments(Cluster::NODES, "CLUSTER NODES", following)
    } else if str_eq(name, "SLOTS") {
        select_without_arguments(Cluster::SLOTS, "CLUSTER SLOTS", following)
    } else {
        let mut details = String::from_str("Unsupported command: CLUSTER ");
        details.append(name);
        Err(ProtocolError::new(details))
    }
}

/// Parses the arguments of `CLUSTER`.
pub fn parse(args: Vec<String>) -> (result: Result<Request, ProtocolError>)
    ensures
        outcome(result) == parsed(texts(args@)),
{
    if args.len() == 0 {
        return Err(error_too_few_arguments("CLUSTER", Some(1)));
    }
    let name = to_uppercase(args[0].as_str());
    select(name.as_str(), args.len() - 1)
}

/// The reply to `CLUSTER SLOTS`: one range, from the first slot to the slot
/// count, with the one node that serves it.
pub open spec fn slots_reply() -> FrameView {
    FrameView::Array(
        seq![
            FrameView::Array(
                seq![
                    FrameView::Number(0),
                    FrameView::Number(SLOT_COUNT as int),
                    FrameView::Array(seq![blob("127.0.0.1"@), blob("3769"@), blob("my-id"@)]),
                ],
            ),
        ],
    )
}

/// The description of the one node of the default cluster: keys and values
/// in turn.
pub open spec fn node_description() -> FrameView {
    FrameView::Array(
        seq![
            blob("id"@),
            blob("defaultId"@),
            blob("endpoint"@),
            blob("127.0.0.1"@),
            blob("ip"@),
            blob("127.0.0.1"@),
            blob("port"@),
            blob("3769"@),
        ],
    )
}

/// The slot ranges as a reply: the word `slots`, then the bounds of all
/// ranges in one flat sequence.
pub open spec fn slot_ranges(slots: Seq<(u16, u16)>) -> Seq<FrameView> {
    seq![blob("slots"@), FrameView::Array(flattened(slots))]
}

/// The reply to `CLUSTER SHARDS`: one shard, which serves every slot from
/// its one node.
pub open spec fn shards_reply() -> FrameView {
    FrameView::Array(
        seq![
            FrameView::Array(
                slot_ranges(seq![(0u16, SLOT_COUNT)]) + seq![
                    blob("nodes"@),
                    FrameView::Array(seq![node_description()]),
                ],
            ),
        ],
    )
}

/// The reply to `CLUSTER NODES`.
pub open spec fn nodes_reply() -> FrameView {
    blob("myid 127.0.0.1:3769@3769,- myself,master - 0 0 1 connected 0-16384\r\n"@)
}

/// The reply to `CLUSTER INFO`.
pub open spec fn info_reply() -> FrameView {
    blob("Not implemented"@)
}

/// The default reply to each subcommand.
pub open spec fn default_reply(subcommand: Cluster) -> FrameView {
    match subcommand {
        Cluster::SHARDS => shards_reply(),
        Cluster::INFO => info_reply(),
        Cluster::NODES => nodes_reply(),
        Cluster::SLOTS => slots_reply(),
    }
}

/// Handles `CLUSTER` with the replies of a cluster of one node.
pub fn default_handle(args: Request) -> (result: Result<Frame, ProtocolError>)
    requires
        args is CLUSTER,
    ensures
        reply(result) == Ok::<FrameView, Seq<char>>(default_reply(args->CLUSTER_0)),
{
    match args {
        Request::CLUSTER(subcommand) => match subcommand {
            Cluster::SHARDS => default_handle_shards(),
            Cluster::INFO => default_handle_info(),
            Cluster::NODES => default_handle_nodes(),
            Cluster::SLOTS => default_handle_slots(),
        },
        _ => unreached(),
    }
}

/// The default reply to `CLUSTER SHARDS`.
fn default_handle_shards() -> (result: Result<Frame, ProtocolError>)
    ensures
        reply(result) == Ok::<FrameView, Seq<char>>(shards_reply()),
{
    let mut ranges: Vec<(u16, u16)> = Vec::new();
    ranges.push((0, slot_count()));
    let mut slots_and_nodes: Vec<Frame> = cluster_slots(ranges);
    slots_and_nodes.push("nodes".as_frame());
    let nodes = default_values_nodes().as_frame();
    assert(nodes@->Array_0 =~= seq![node_description()]);
    slots_and_nodes.push(nodes);
    let mut list_of_shards: Vec<Frame> = Vec::new();
    let shard = slots_and_nodes.as_frame();
    assert(shard@->Array_0 =~= shards_reply()->Array_0[0]->Array_0);
    list_of_shards.push(shard);
    let frame = list_of_shards.as_frame();
    assert(frame@->Array_0 =~= shards_reply()->Array_0);
    Ok(frame)
}

/// The slot ranges as replies: the word `slots`, then the bounds of all
/// ranges in one flat sequence, first and last slot of each range in turn.
pub fn cluster_slots(slots: Vec<(u16, u16)>) -> (frames: Vec<Frame>)
    ensures
        frames@.len() == 2,
        frames[0]@ == blob("slots"@),
        frames[1]@ == FrameView::Array(flattened(slots@)),
        Seq::new(2, |i: int| frames[i]@) == slot_ranges(slots@),
{
    let mut frames: Vec<Frame> = Vec::new();
    frames.push("slots".as_frame());
    frames.push(slots.as_frame());
    frames
}

/// The nodes of the default cluster: one, with its description.
fn default_values_nodes() -> (nodes: Vec<Frame>)
    ensures
        nodes@.len() == 1,
        nodes[0]@ == node_description(),
{
    proof {
        reveal_strlit("id");
        reveal_strlit("endpoint");
        reveal_strlit("ip");
        reveal_strlit("port");
    }
    let mut value_map: Table<String> = Table::new();
    value_map.insert(String::from_str("id"), String::from_str("defaultId"));
    value_map.insert(String::from_str("endpoint"), String::from_str("127.0.0.1"));
    assert("id"@[1] != "ip"@[1]);
    value_map.insert(String::from_str("ip"), String::from_str("127.0.0.1"));
    value_map.insert(String::from_str("port"), String::from_str("3769"));
    let mut all_nodes: Vec<Frame> = Vec::new();
    let frame = map_to_array(value_map);
    assert(frame@->Array_0 =~= node_description()->Array_0);
    all_nodes.push(frame);
    all_nodes
}

/// The default reply to `CLUSTER NODES`.
fn default_handle_nodes() -> (result: Result<Frame, ProtocolError>)
    ensures
        reply(result) == Ok::<FrameView, Seq<char>>(nodes_reply()),
{
    Ok("myid 127.0.0.1:3769@3769,- myself,master - 0 0 1 connected 0-16384\r\n".as_frame())
}

/// The default reply to `CLUSTER SLOTS`.
fn default_handle_slots() -> (result: Result<Frame, ProtocolError>)
    ensures
        reply(result) == Ok::<FrameView, Seq<char>>(slots_reply()),
{
    let mut node: Vec<Frame> = Vec::new();
    node.push("127.0.0.1".as_frame());
    node.push("3769".as_frame());
    node.push("my-id".as_frame());
    let mut this_range: Vec<Frame> = Vec::new();
    this_range.push(0i32.as_frame());
    this_range.push(slot_count().as_frame());
    let node_frame = node.as_frame();
    assert(node_frame@->Array_0 =~= seq![blob("127.0.0.1"@), blob("3769"@), blob("my-id"@)]);
    this_range.push(node_frame);
    let mut ranges: Vec<Frame> = Vec::new();
    let range_frame = this_range.as_frame();
    assert(range_frame@->Array_0 =~= slots_reply()->Array_0[0]->Array_0);
    ranges.push(range_frame);
    let frame = ranges.as_frame();
    assert(frame@->Array_0 =~= slots_reply()->Array_0);
    Ok(frame)
}

/// The default reply to `CLUSTER INFO`.
fn default_handle_info() -> (result: Result<Frame, ProtocolError>)
    ensures
        reply(result) == Ok::<FrameView, Seq<char>>(info_reply()),
{
    Ok("Not implemented".as_frame())
}

/// The reply to `CLUSTER SLOTS` holds one range, and the bounds of that
/// range are the first slot and the slot count.
pub proof fn lemma_slots_full_range()
    ensures
        default_reply(Cluster::SLOTS) is Array,
        default_reply(Cluster::SLOTS)->Array_0.len() == 1,
        default_reply(Cluster::SLOTS)->Array_0[0] is Array,
        default_reply(Cluster::SLOTS)->Array_0[0]->Array_0[0] == FrameView::Number(0),
        default_reply(Cluster::SLOTS)->Array_0[0]->Array_0[1] == FrameView::Number(
            SLOT_COUNT as int,
        ),
{
}

} // verus!
