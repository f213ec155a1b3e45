//! What a node answers to its peers: the replies of the three peer calls,
//! given what the local cell said.

use crate::dto::{EnrichedLocationStats, EnrichedLocationStatsView, ShardError};
use vstd::prelude::*;

verus! {

/// The status codes of a peer call. `Success` is the code of a call that went
/// well; the others say how one failed.
#[derive(Clone, Copy, Debug, PartialEq, Eq, Structural)]
pub enum RpcCode {
    Success,
    Cancelled,
    Unknown,
    InvalidArgument,
    DeadlineExceeded,
    NotFound,
    AlreadyExists,
    PermissionDenied,
    ResourceExhausted,
    FailedPrecondition,
    Aborted,
    OutOfRange,
    Unimplemented,
    Internal,
    Unavailable,
    DataLoss,
    Unauthenticated,
}

/// A peer call that did not succeed: its status code and the text that came
/// with it.
pub struct RpcFailure {
    pub code: RpcCode,
    pub message: String,
}

/// The answer to a fragment read: the fragment that the node holds for the
/// location, the authoritative record if it holds that, or both.
pub struct GetShardResponse {
    pub shard: Option<Vec<u8>>,
    pub location_stats: Option<EnrichedLocationStats>,
}

/// What a [`GetShardResponse`] holds.
pub struct GetShardResponseView {
    pub shard: Option<Seq<u8>>,
    pub location_stats: Option<EnrichedLocationStatsView>,
}

impl View for GetShardResponse {
    type V = GetShardResponseView;

    open spec fn view(&self) -> GetShardResponseView {
        GetShardResponseView {
            shard: match self.shard {
                Some(shard) => Some(shard@),
                None => None,
            },
            location_stats: match self.location_stats {
                Some(stats) => Some(stats@),
                None => None,
            },
        }
    }
}

/// The failure that a peer is told when the local cell reported `error`:
/// status `Internal`, with the text of the error.
pub fn internal_failure(error: &ShardError) -> (failure: RpcFailure)
    ensures
        failure.code == RpcCode::Internal,
        failure.message@ == error.heading() + error.detail(),
{
    RpcFailure { code: RpcCode::Internal, message: error.to_string() }
}

/// The reply to a forwarded write, given what the local write returned.
pub fn route_write_reply(written: Result<Vec<()>, ShardError>) -> (reply: Result<(), RpcFailure>)
    ensures
        match written {
            Ok(_) => reply is Ok,
            Err(e) => reply matches Err(f) && f.code == RpcCode::Internal && f.message@
                == e.heading() + e.detail(),
        },
{
    match written {
        Ok(_) => Ok(()),
        Err(e) => Err(internal_failure(&e)),
    }
}

/// The reply to a fragment write, given what the local cell returned.
pub fn write_shard_reply(stored: Result<(), ShardError>) -> (reply: Result<(), RpcFailure>)
    ensures
        match stored {
            Ok(_) => reply is Ok,
            Err(e) => reply matches Err(f) && f.code == RpcCode::Internal && f.message@
                == e.heading() + e.detail(),
        },
{
    match stored {
        Ok(_) => Ok(()),
        Err(e) => Err(internal_failure(&e)),
    }
}

/// The reply to a fragment read, given what the local cell holds: the
/// fragment and the record, each only if the cell holds it. A cell that holds
/// neither answers with an empty reply, not with a failure.
pub fn get_shard_reply(shard: Result<Vec<u8>, ShardError>, location: Result<EnrichedLocationStats, ()>)
    -> (reply: Result<GetShardResponse, RpcFailure>)
    ensures
        reply matches Ok(response) && response.shard == shard.ok() && response.location_stats
            == location.ok(),
{
    Ok(GetShardResponse { shard: shard.ok(), location_stats: location.ok() })
}

} // verus!
