//! The dispatcher of client requests: where a write goes, what a read
//! answers, and how a record is rebuilt from the fragments of the peers.
//!
//! Every function here is one decision of a request. The calls to the cells
//! and to the peers lie between them and are made by whoever drives the
//! dispatcher.

use crate::codec::{decodable, decode, decoded};
use crate::dto::{
    fragments, reassembled, record_bytes, EnrichedLocationStats, EnrichedLocationStatsView,
    ShardError,
};
use crate::node::{GetShardResponse, GetShardResponseView, RpcCode, RpcFailure};
use crate::outside::{rs_explains, shard_bytes, uuid_hyphenated};
use crate::util::{
    fragment_holder, fragment_target, get_owner_node_id, lemma_owner_in_cluster, owner_of,
    ROOT_ACTOR_POOL_SIZE,
};
use std::collections::HashMap;
use vstd::prelude::*;
use vstd::string::StringExecFns;

verus! {

/// What a client is told.
pub enum HttpReply {
    /// 200, with the text `pong`.
    Pong,
    /// 201, with an empty body.
    Created,
    /// 200, with the record.
    Found(EnrichedLocationStats),
    /// 404, with an empty body.
    NotFound,
    /// 500, with a message.
    InternalError(String),
}

/// What an [`HttpReply`] holds.
pub enum HttpReplyView {
    Pong,
    Created,
    Found(EnrichedLocationStatsView),
    NotFound,
    InternalError(Seq<char>),
}

impl View for HttpReply {
    type V = HttpReplyView;

    open spec fn view(&self) -> HttpReplyView {
        match self {
            HttpReply::Pong => HttpReplyView::Pong,
            HttpReply::Created => HttpReplyView::Created,
            HttpReply::Found(record) => HttpReplyView::Found(record@),
            HttpReply::NotFound => HttpReplyView::NotFound,
            HttpReply::InternalError(message) => HttpReplyView::InternalError(message@),
        }
    }
}

impl HttpReply {
    /// The status code of the reply.
    pub fn status(&self) -> (code: u16)
        ensures
            code == match self {
                HttpReply::Pong => 200u16,
                HttpReply::Created => 201u16,
                HttpReply::Found(_) => 200u16,
                HttpReply::NotFound => 404u16,
                HttpReply::InternalError(_) => 500u16,
            },
    {
        match self {
            HttpReply::Pong => 200,
            HttpReply::Created => 201,
            HttpReply::Found(_) => 200,
            HttpReply::NotFound => 404,
            HttpReply::InternalError(_) => 500,
        }
    }
}

/// Where a write goes.
#[derive(Clone, Copy, Debug, PartialEq, Eq, Structural)]
pub enum PutRoute {
    /// To the owner, which is another node.
    Forward(u32),
    /// To the cell on this node, kept by the registry of this index.
    Local(usize),
}

/// The next step of a read.
pub enum GetStep {
    /// Answer the client.
    Respond(HttpReply),
    /// Ask the local cell for its fragment.
    AskShard,
    /// Ask all seven nodes for what they hold.
    FanOut,
}

/// What became of one fragment read: the reply to count, and the peer whose
/// channel is to be reset, if any.
pub struct ShardRead {
    pub response: GetShardResponse,
    pub reset: Option<u32>,
}

/// Whether a failed peer call says that the channel to the peer is broken: the
/// peer was unavailable, the deadline passed, or the call was cancelled or
/// aborted.
pub fn is_connection_error(code: RpcCode) -> (broken: bool)
    ensures
        broken <==> (code == RpcCode::Unavailable || code == RpcCode::DeadlineExceeded || code
            == RpcCode::Cancelled || code == RpcCode::Aborted),
{
    match code {
        RpcCode::Unavailable => true,
        RpcCode::DeadlineExceeded => true,
        RpcCode::Cancelled => true,
        RpcCode::Aborted => true,
        _ => false,
    }
}

/// The answer to a health probe.
pub fn index() -> (reply: HttpReply)
    ensures
        reply@ == HttpReplyView::Pong,
{
    HttpReply::Pong
}

/// Routes a write: to the owner of the location where that is another node,
/// else to the local registry that keeps the location.
pub fn put_route(current_node: u32, location_id: String) -> (route: PutRoute)
    ensures
        route == (if owner_of(location_id@) != current_node {
            PutRoute::Forward(owner_of(location_id@) as u32)
        } else {
            PutRoute::Local((owner_of(location_id@) % (ROOT_ACTOR_POOL_SIZE as int)) as usize)
        }),
{
    proof {
        lemma_owner_in_cluster(location_id@);
    }
    let owner_id = get_owner_node_id(location_id);
    if current_node != owner_id {
        PutRoute::Forward(owner_id)
    } else {
        PutRoute::Local((owner_id % ROOT_ACTOR_POOL_SIZE) as usize)
    }
}

/// What to answer after a write was forwarded to `owner_id`: 201 if the owner
/// took it; else 500, and a reset of the channel to the owner where the
/// failure says that the channel is broken.
pub fn put_forwarded(owner_id: u32, reply: Result<(), RpcFailure>) -> (outcome: (HttpReply, Option<u32>))
    ensures
        match reply {
            Ok(_) => outcome.0@ == HttpReplyView::Created && outcome.1 is None,
            Err(f) => {
                &&& outcome.0@ == HttpReplyView::InternalError("Failed to route write"@)
                &&& outcome.1 == (if (f.code == RpcCode::Unavailable || f.code
                    == RpcCode::DeadlineExceeded || f.code == RpcCode::Cancelled || f.code
                    == RpcCode::Aborted) {
                    Some(owner_id)
                } else {
                    None
                })
            },
        },
{
    match reply {
        Ok(_) => (HttpReply::Created, None),
        Err(failure) => {
            let reset = if is_connection_error(failure.code) {
                Some(owner_id)
            } else {
                None
            };
            (HttpReply::InternalError(String::from_str("Failed to route write")), reset)
        },
    }
}

/// What to answer after the local cell took a write: 201 if all fragment
/// writes went well, else 500.
pub fn put_written(written: Result<Vec<()>, ShardError>) -> (reply: HttpReply)
    ensures
        reply@ == (match written {
            Ok(_) => HttpReplyView::Created,
            Err(_) => HttpReplyView::InternalError("Failed to put location stats"@),
        }),
{
    match written {
        Ok(_) => HttpReply::Created,
        Err(_) => HttpReply::InternalError(String::from_str("Failed to put location stats")),
    }
}

/// The step of a read after the local cell was asked for its record: answer
/// with the record if it has one, else ask it for its fragment.
pub fn get_located(location: Result<EnrichedLocationStats, ()>) -> (step: GetStep)
    ensures
        match location {
            Ok(record) => step matches GetStep::Respond(reply) && reply@ == HttpReplyView::Found(
                record@,
            ),
            Err(_) => step is AskShard,
        },
{
    match location {
        Ok(record) => GetStep::Respond(HttpReply::Found(record)),
        Err(_) => GetStep::AskShard,
    }
}

/// The step of a read after the local cell was asked for its fragment: ask
/// the peers if it has one, else answer 404.
pub fn get_sharded(shard: Result<Vec<u8>, ShardError>) -> (step: GetStep)
    ensures
        match shard {
            Ok(_) => step is FanOut,
            Err(_) => step matches GetStep::Respond(reply) && reply@ == HttpReplyView::NotFound,
        },
{
    match shard {
        Ok(_) => GetStep::FanOut,
        Err(_) => GetStep::Respond(HttpReply::NotFound),
    }
}

/// What to make of the fragment read from `node_id`. A failed read counts as
/// an empty reply; one that says the channel is broken also asks for that
/// channel to be reset.
pub fn read_shard_from_node(node_id: u32, reply: Result<GetShardResponse, RpcFailure>) -> (read:
    ShardRead)
    ensures
        match reply {
            Ok(response) => read.response == response && read.reset is None,
            Err(f) => {
                &&& read.response.shard is None
                &&& read.response.location_stats is None
                &&& read.reset == (if (f.code == RpcCode::Unavailable || f.code
                    == RpcCode::DeadlineExceeded || f.code == RpcCode::Cancelled || f.code
                    == RpcCode::Aborted) {
                    Some(node_id)
                } else {
                    None
                })
            },
        },
{
    match reply {
        Ok(response) => ShardRead { response, reset: None },
        Err(failure) => {
            let reset = if is_connection_error(failure.code) {
                Some(node_id)
            } else {
                None
            };
            ShardRead { response: GetShardResponse { shard: None, location_stats: None }, reset }
        },
    }
}

/// The data fragments among the replies of the seven nodes, for a location
/// owned by `owner`: fragment `i` is the one that the node
/// [`fragment_holder`]`(i)` sent, if it sent one.
pub open spec fn collected_data(responses: Seq<GetShardResponseView>, owner: int) -> Map<
    usize,
    Seq<u8>,
> {
    Map::new(
        |i: usize| i < 4 && responses[fragment_holder(i as int, owner)].shard is Some,
        |i: usize| responses[fragment_holder(i as int, owner)].shard->0,
    )
}

/// The parity fragments among the replies of the seven nodes: parity fragment
/// `j` is the one that the node [`fragment_holder`]`(4 + j)` sent, if it sent
/// one.
pub open spec fn collected_parity(responses: Seq<GetShardResponseView>, owner: int) -> Map<
    usize,
    Seq<u8>,
> {
    Map::new(
        |j: usize| j < 2 && responses[fragment_holder(4 + j, owner)].shard is Some,
        |j: usize| responses[fragment_holder(4 + j, owner)].shard->0,
    )
}

/// The answer to a read, given the replies of the seven nodes, for a location
/// owned by `owner`: the owner's record if it sent one; else the record
/// rebuilt from the fragments of the others, if they are four or more and fit
/// together.
pub open spec fn reconstructed(responses: Seq<GetShardResponseView>, owner: int) -> HttpReplyView {
    let data = collected_data(responses, owner);
    let parity = collected_parity(responses, owner);
    if responses[owner].location_stats is Some {
        HttpReplyView::Found(responses[owner].location_stats->0)
    } else if data.len() + parity.len() < 4 {
        HttpReplyView::InternalError("Not enough shards"@)
    } else if !decodable(data, parity) {
        HttpReplyView::InternalError("Failed to restore shard"@)
    } else {
        match reassembled(decoded(data, parity)) {
            Ok(record) => HttpReplyView::Found(record),
            Err(_) => HttpReplyView::InternalError("Failed to decode shards"@),
        }
    }
}

/// The replies of the seven nodes as what they hold.
pub open spec fn replies(responses: Seq<GetShardResponse>) -> Seq<GetShardResponseView> {
    responses.map_values(|response: GetShardResponse| response@)
}

/// Sorts the fragments among the replies into data and parity fragments,
/// each under its index.
fn collect_fragments(responses: &Vec<GetShardResponse>, owner: u32) -> (collected: (
    HashMap<usize, Vec<u8>>,
    HashMap<usize, Vec<u8>>,
))
    requires
        responses.len() == 7,
        owner < 7,
    ensures
        shard_bytes(collected.0@) == collected_data(replies(responses@), owner as int),
        shard_bytes(collected.1@) == collected_parity(replies(responses@), owner as int),
        collected.0@.dom().finite(),
        collected.1@.dom().finite(),
{
    let mut data: HashMap<usize, Vec<u8>> = HashMap::new();
    let mut parity: HashMap<usize, Vec<u8>> = HashMap::new();
    let ghost all = replies(responses@);
    let mut i: usize = 0;
    while i < 6
        invariant
            i <= 6,
            owner < 7,
            responses.len() == 7,
            all == replies(responses@),
            forall|k: usize|
                data@.contains_key(k) <==> k < 4 && k < i && all[fragment_holder(
                    k as int,
                    owner as int,
                )].shard is Some,
            forall|k: usize| #[trigger]
                data@.contains_key(k) ==> data@[k]@ == all[fragment_holder(
                    k as int,
                    owner as int,
                )].shard->0,
            forall|k: usize|
                parity@.contains_key(k) <==> k < 2 && 4 + k < i && all[fragment_holder(
                    4 + k,
                    owner as int,
                )].shard is Some,
            forall|k: usize| #[trigger]
                parity@.contains_key(k) ==> parity@[k]@ == all[fragment_holder(
                    4 + k,
                    owner as int,
                )].shard->0,
        decreases 6 - i,
    {
        let node_id = fragment_target(i, owner) as usize;
        assert(all[node_id as int] == responses[node_id as int]@);
        match &responses[node_id].shard {
            Some(shard) => {
                if i >= 4 {
                    parity.insert(i - 4, shard.clone());
                } else {
                    data.insert(i, shard.clone());
                }
            },
            None => {},
        }
        i += 1;
    }
    proof {
        assert(shard_bytes(data@) =~= collected_data(all, owner as int));
        assert(shard_bytes(parity@) =~= collected_parity(all, owner as int));
    }
    (data, parity)
}

/// Answers a read from the replies of the seven nodes, in the order of the
/// nodes. The owner's record is the answer if the owner sent it. Otherwise
/// the fragments of the other six are decoded, and the record is read back
/// from the data fragments. So where the fragments at hand are four or more
/// of the six of one record, the answer is that record.
pub fn get_reconstructed(location_id: String, responses: Vec<GetShardResponse>) -> (reply: HttpReply)
    requires
        responses.len() == 7,
    ensures
        reply@ == reconstructed(replies(responses@), owner_of(location_id@)),
        forall|id: Seq<u8>, record: EnrichedLocationStatsView|
            {
                &&& id.len() == 16
                &&& replies(responses@)[owner_of(location_id@)].location_stats is None
                &&& #[trigger] rs_explains(
                    4,
                    2,
                    fragments(record_bytes(id, record)),
                    collected_data(replies(responses@), owner_of(location_id@)),
                    collected_parity(replies(responses@), owner_of(location_id@)),
                )
                &&& collected_data(replies(responses@), owner_of(location_id@)).len()
                    + collected_parity(replies(responses@), owner_of(location_id@)).len() >= 4
            } ==> reply@ == HttpReplyView::Found(
                EnrichedLocationStatsView { id: uuid_hyphenated(id), ..record },
            ),
{
    proof {
        lemma_owner_in_cluster(location_id@);
    }
    let ghost owner = owner_of(location_id@);
    let ghost all = replies(responses@);
    let owner_node_id = get_owner_node_id(location_id);
    assert(all[owner] == responses[owner]@);
    match &responses[owner_node_id as usize].location_stats {
        Some(record) => {
            return HttpReply::Found(record.clone());
        },
        None => {},
    }
    let (data, parity) = collect_fragments(&responses, owner_node_id);
    let ghost d = collected_data(all, owner);
    let ghost p = collected_parity(all, owner);
    proof {
        assert(shard_bytes(data@).dom() =~= data@.dom());
        assert(shard_bytes(parity@).dom() =~= parity@.dom());
    }
    let reply = match decode(&data, &parity) {
        Err(error) => match error {
            ShardError::DecodingError(message) => HttpReply::InternalError(message),
            _ => HttpReply::InternalError(String::from_str("Failed to restore shard")),
        },
        Ok(shards) => match EnrichedLocationStats::from_shards(shards) {
            Ok(record) => HttpReply::Found(record),
            Err(_) => HttpReply::InternalError(String::from_str("Failed to decode shards")),
        },
    };
    proof {
        assert forall|id: Seq<u8>, record: EnrichedLocationStatsView|
            {
                &&& id.len() == 16
                &&& #[trigger] rs_explains(4, 2, fragments(record_bytes(id, record)), d, p)
                &&& d.len() + p.len() >= 4
            } implies reply@ == HttpReplyView::Found(
            EnrichedLocationStatsView { id: uuid_hyphenated(id), ..record },
        ) by {
            crate::dto::lemma_fragments_reassemble(id, record);
        }
    }
    reply
}

} // verus!
