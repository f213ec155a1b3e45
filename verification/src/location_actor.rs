//! The cell of one location: the authoritative record where this node owns
//! the location, the fragment that it keeps for another owner, and the plan of
//! the fragment writes that follow a write.

use crate::codec::{encode, encoded};
use crate::conn_manager::ChannelId;
use crate::dto::{
    enriched, EnrichedLocationStats, EnrichedLocationStatsView, LocationStats, LocationStatsView,
    ShardError,
};
use crate::node::{RpcCode, RpcFailure};
use crate::outside::uuid_parsed;
use crate::text::{decimal, decimal_string};
use crate::util::{fragment_holder, fragment_target};
use std::collections::HashMap;
use vstd::prelude::*;
use vstd::string::StringExecFns;

verus! {

/// The state of one location on one node.
pub struct LocationActor {
    modification_count: i64,
    location: Option<LocationStats>,
    shard: Option<Vec<u8>>,
}

/// What a [`LocationActor`] holds.
pub struct LocationActorView {
    pub modification_count: i64,
    pub location: Option<LocationStatsView>,
    pub shard: Option<Seq<u8>>,
}

impl LocationActorView {
    /// A cell that has seen nothing yet.
    pub open spec fn initial() -> Self {
        LocationActorView { modification_count: 0, location: None, shard: None }
    }

    /// The cell after a write of `stats`: the count goes up by one and the
    /// reading is replaced. The fragment stays as it is.
    pub open spec fn put_location(self, stats: LocationStatsView) -> Self {
        LocationActorView {
            modification_count: (self.modification_count + 1) as i64,
            location: Some(stats),
            shard: self.shard,
        }
    }

    /// The cell after a fragment write: the fragment is replaced. Count and
    /// reading stay as they are.
    pub open spec fn put_shard(self, shard: Seq<u8>) -> Self {
        LocationActorView { shard: Some(shard), ..self }
    }

    /// The authoritative record, where the cell holds one: its reading with
    /// the current count.
    pub open spec fn get_location(self) -> Option<EnrichedLocationStatsView> {
        match self.location {
            Some(stats) => Some(enriched(self.modification_count, stats)),
            None => None,
        }
    }

    /// The cell after the writes of `writes`, one after the other.
    pub open spec fn after_writes(self, writes: Seq<LocationStatsView>) -> Self
        decreases writes.len(),
    {
        if writes.len() == 0 {
            self
        } else {
            self.after_writes(writes.drop_last()).put_location(writes.last())
        }
    }
}

/// After `n` writes a fresh cell holds the last reading written, with the
/// count `n`.
pub proof fn lemma_nth_write(writes: Seq<LocationStatsView>)
    requires
        0 < writes.len() <= i64::MAX,
    ensures
        LocationActorView::initial().after_writes(writes).get_location() == Some(
            enriched(writes.len() as i64, writes.last()),
        ),
        LocationActorView::initial().after_writes(writes).shard is None,
{
    lemma_writes_counted(LocationActorView::initial(), writes);
}

/// Every write raises the count by one, and none touches the fragment.
pub proof fn lemma_writes_counted(cell: LocationActorView, writes: Seq<LocationStatsView>)
    requires
        cell.modification_count + writes.len() <= i64::MAX,
    ensures
        cell.after_writes(writes).modification_count == cell.modification_count + writes.len(),
        cell.after_writes(writes).shard == cell.shard,
        writes.len() > 0 ==> cell.after_writes(writes).location == Some(writes.last()),
    decreases writes.len(),
{
    if writes.len() > 0 {
        lemma_writes_counted(cell, writes.drop_last());
    }
}

/// A read after a write returns what was written, with the count that the
/// cell had before and one more.
pub proof fn lemma_read_after_write(cell: LocationActorView, stats: LocationStatsView)
    requires
        cell.modification_count < i64::MAX,
    ensures
        cell.put_location(stats).get_location() == Some(
            enriched((cell.modification_count + 1) as i64, stats),
        ),
{
}

/// Writing the same reading twice is counted twice.
pub proof fn lemma_same_write_twice(cell: LocationActorView, stats: LocationStatsView)
    requires
        cell.modification_count + 2 <= i64::MAX,
    ensures
        cell.put_location(stats).put_location(stats).modification_count == cell.put_location(
            stats,
        ).modification_count + 1,
        cell.put_location(stats).put_location(stats).location == cell.put_location(stats).location,
{
}

/// One fragment write that the owner has to make: which peer, over which
/// channel, for which location, with which bytes.
pub struct ShardWrite {
    pub node_id: u32,
    pub channel: ChannelId,
    pub location_id: String,
    pub shard: Vec<u8>,
}

/// What a [`ShardWrite`] holds.
pub struct ShardWriteView {
    pub node_id: u32,
    pub channel: ChannelId,
    pub location_id: Seq<char>,
    pub shard: Seq<u8>,
}

impl View for ShardWrite {
    type V = ShardWriteView;

    open spec fn view(&self) -> ShardWriteView {
        ShardWriteView {
            node_id: self.node_id,
            channel: self.channel,
            location_id: self.location_id@,
            shard: self.shard@,
        }
    }
}

impl DeepView for ShardWrite {
    type V = ShardWriteView;

    open spec fn deep_view(&self) -> ShardWriteView {
        self@
    }
}

/// Whether a channel to the peer that holds fragment `index` is at hand.
pub open spec fn reachable(current_node: u32, channels: Map<u32, ChannelId>, index: int) -> bool {
    channels.contains_key(fragment_holder(index, current_node as int) as u32)
}

/// The first of the six fragments whose holder has no channel, or 6 where
/// every holder has one.
pub open spec fn first_unreachable(current_node: u32, channels: Map<u32, ChannelId>) -> int {
    if !reachable(current_node, channels, 0) {
        0
    } else if !reachable(current_node, channels, 1) {
        1
    } else if !reachable(current_node, channels, 2) {
        2
    } else if !reachable(current_node, channels, 3) {
        3
    } else if !reachable(current_node, channels, 4) {
        4
    } else if !reachable(current_node, channels, 5) {
        5
    } else {
        6
    }
}

/// The message for a peer without a channel.
pub open spec fn no_channel_message(node_id: int) -> Seq<char> {
    "No channel found for node "@ + decimal(node_id as nat)
}

/// The six fragment writes of a record, in the order of the fragments:
/// fragment `i` goes to the peer [`fragment_holder`]`(i)`, over the channel to
/// that peer.
pub open spec fn planned_writes(
    location_id: Seq<char>,
    all: Seq<Seq<u8>>,
    current_node: u32,
    channels: Map<u32, ChannelId>,
) -> Seq<ShardWriteView> {
    Seq::new(
        6,
        |i: int|
            ShardWriteView {
                node_id: fragment_holder(i, current_node as int) as u32,
                channel: channels[fragment_holder(i, current_node as int) as u32],
                location_id,
                shard: all[i],
            },
    )
}

/// What became of one fragment write: its result for the caller, and the peer
/// whose channel is to be reset, if any.
pub struct WriteOutcome {
    pub result: Result<(), ShardError>,
    pub reset: Option<u32>,
}

/// `index` is the position of the first failure among the results.
pub open spec fn first_failure_at(results: Seq<Result<(), ShardError>>, index: int) -> bool {
    &&& 0 <= index < results.len()
    &&& results[index] is Err
    &&& forall|j: int| 0 <= j < index ==> results[j] is Ok
}

impl View for LocationActor {
    type V = LocationActorView;

    closed spec fn view(&self) -> LocationActorView {
        LocationActorView {
            modification_count: self.modification_count,
            location: match self.location {
                Some(stats) => Some(stats@),
                None => None,
            },
            shard: match self.shard {
                Some(shard) => Some(shard@),
                None => None,
            },
        }
    }
}

impl LocationActor {
    /// A cell that has seen nothing yet.
    pub fn new() -> (cell: Self)
        ensures
            cell@ == LocationActorView::initial(),
    {
        LocationActor { modification_count: 0, location: None, shard: None }
    }

    /// The number of writes that the cell has seen.
    pub fn modification_count(&self) -> (count: i64)
        ensures
            count == self@.modification_count,
    {
        self.modification_count
    }

    /// Takes a write: raises the count, keeps the reading as the authoritative
    /// one, and returns the record to encode and distribute.
    pub fn put_location(&mut self, stats: LocationStats) -> (record: EnrichedLocationStats)
        requires
            old(self)@.modification_count < i64::MAX,
        ensures
            final(self)@ == old(self)@.put_location(stats@),
            record@ == enriched((old(self)@.modification_count + 1) as i64, stats@),
            Some(record@) == final(self)@.get_location(),
    {
        self.modification_count = self.modification_count + 1;
        self.location = Some(stats.clone());
        EnrichedLocationStats::from(self.modification_count, stats)
    }

    /// The authoritative record, or `Err` where this node holds none.
    pub fn get_location(&self) -> (r: Result<EnrichedLocationStats, ()>)
        ensures
            match r {
                Ok(record) => self@.get_location() == Some(record@),
                Err(_) => self@.get_location() is None,
            },
    {
        match &self.location {
            Some(location) => Ok(EnrichedLocationStats::from(self.modification_count, location.clone())),
            None => Err(()),
        }
    }

    /// Stores the fragment that an owner sent, in place of any earlier one.
    pub fn put_shard(&mut self, shard: Vec<u8>) -> (r: Result<(), ShardError>)
        ensures
            r is Ok,
            final(self)@ == old(self)@.put_shard(shard@),
    {
        self.shard = Some(shard);
        Ok(())
    }

    /// The fragment that this node keeps for the location, or a
    /// `NotFoundError` that names the location where it keeps none.
    pub fn get_shard(&self, location_id: &String) -> (r: Result<Vec<u8>, ShardError>)
        ensures
            match r {
                Ok(shard) => self@.shard == Some(shard@),
                Err(e) => {
                    &&& self@.shard is None
                    &&& e matches ShardError::NotFoundError(m)
                    &&& m@ == "Shard not found for location "@ + location_id@
                },
            },
    {
        match &self.shard {
            Some(shard) => Ok(shard.clone()),
            None => Err(
                ShardError::NotFoundError(
                    String::from_str("Shard not found for location ").concat(location_id.as_str()),
                ),
            ),
        }
    }

    /// Whether a failed fragment write says that the channel to the peer is
    /// broken: the peer was unavailable, the deadline passed, the call was
    /// cancelled or aborted, or nothing is known.
    pub fn is_connection_error(code: RpcCode) -> (broken: bool)
        ensures
            broken <==> (code == RpcCode::Unavailable || code == RpcCode::DeadlineExceeded || code
                == RpcCode::Cancelled || code == RpcCode::Aborted || code == RpcCode::Unknown),
    {
        match code {
            RpcCode::Unavailable => true,
            RpcCode::DeadlineExceeded => true,
            RpcCode::Cancelled => true,
            RpcCode::Aborted => true,
            RpcCode::Unknown => true,
            _ => false,
        }
    }

    /// Plans the fragment writes for a record: encodes it into six fragments
    /// and sends fragment `i` to the peer `i`, or `i + 1` from this node's own
    /// index on. Fails with an `EncodingError` exactly when the record's
    /// identifier is not the text of a UUID; else with a `ChannelError` that
    /// names the first peer without a channel, exactly when there is one. So a
    /// plan always holds all six writes.
    pub fn write(
        location_id: &String,
        data: &EnrichedLocationStats,
        current_node: u32,
        channels: &HashMap<u32, ChannelId>,
    ) -> (r: Result<Vec<ShardWrite>, ShardError>)
        ensures
            match r {
                Ok(writes) => {
                    &&& uuid_parsed(data.id@) matches Some(id)
                    &&& id.len() == 16
                    &&& first_unreachable(current_node, channels@) == 6
                    &&& writes.len() == 6
                    &&& writes.deep_view() == planned_writes(
                        location_id@,
                        encoded(id, data@),
                        current_node,
                        channels@,
                    )
                },
                Err(ShardError::EncodingError(m)) => {
                    &&& uuid_parsed(data.id@) is None
                    &&& m@ == "Record id is not a UUID"@
                },
                Err(ShardError::ChannelError(m)) => {
                    &&& uuid_parsed(data.id@) is Some
                    &&& first_unreachable(current_node, channels@) < 6
                    &&& m@ == no_channel_message(
                        fragment_holder(
                            first_unreachable(current_node, channels@),
                            current_node as int,
                        ),
                    )
                },
                Err(_) => false,
            },
    {
        let all = match encode(data) {
            Ok(all) => all,
            Err(e) => {
                return Err(e);
            },
        };
        let ghost id = uuid_parsed(data.id@)->0;
        let ghost plan = planned_writes(location_id@, encoded(id, data@), current_node, channels@);
        assert(all.len() == all.deep_view().len());
        let mut writes: Vec<ShardWrite> = Vec::new();
        let mut i: usize = 0;
        while i < all.len()
            invariant
                i <= 6,
                all.len() == 6,
                all.deep_view() == encoded(id, data@),
                uuid_parsed(data.id@) == Some(id),
                id.len() == 16,
                plan == planned_writes(location_id@, encoded(id, data@), current_node, channels@),
                writes.len() == i,
                forall|j: int| 0 <= j < i ==> reachable(current_node, channels@, j),
                forall|j: int| 0 <= j < i ==> (#[trigger] writes[j])@ == plan[j],
            decreases 6 - i,
        {
            let node_id = fragment_target(i, current_node);
            match channels.get(&node_id) {
                Some(channel) => {
                    assert(all.deep_view()[i as int] == all[i as int]@);
                    writes.push(
                        ShardWrite {
                            node_id,
                            channel: *channel,
                            location_id: location_id.clone(),
                            shard: all[i].clone(),
                        },
                    );
                },
                None => {
                    let mut message = String::from_str("No channel found for node ");
                    message.append(decimal_string(node_id as usize).as_str());
                    assert(!reachable(current_node, channels@, i as int));
                    assert(first_unreachable(current_node, channels@) == i);
                    assert(message@ =~= no_channel_message(
                        fragment_holder(i as int, current_node as int),
                    ));
                    return Err(ShardError::ChannelError(message));
                },
            }
            i += 1;
        }
        proof {
            assert(first_unreachable(current_node, channels@) == 6);
            assert(writes.deep_view() =~= plan) by {
                assert forall|j: int| 0 <= j < 6 implies writes.deep_view()[j] == plan[j] by {
                    assert(writes.deep_view()[j] == writes[j]@);
                }
            }
        }
        Ok(writes)
    }

    /// What to make of one fragment write to `node_id`. A failure becomes an
    /// `RpcError` with the text that came with it; one that says the channel is
    /// broken also asks for that channel to be reset.
    pub fn write_shard_to_node(node_id: u32, reply: Result<(), RpcFailure>) -> (outcome: WriteOutcome)
        ensures
            match reply {
                Ok(_) => outcome.result is Ok && outcome.reset is None,
                Err(f) => {
                    &&& outcome.result matches Err(ShardError::RpcError(m))
                    &&& m@ == "Failed to write shard: "@ + f.message@
                    &&& outcome.reset == (if (f.code == RpcCode::Unavailable || f.code
                        == RpcCode::DeadlineExceeded || f.code == RpcCode::Cancelled || f.code
                        == RpcCode::Aborted || f.code == RpcCode::Unknown) {
                        Some(node_id)
                    } else {
                        None
                    })
                },
            },
    {
        match reply {
            Ok(_) => WriteOutcome { result: Ok(()), reset: None },
            Err(failure) => {
                let reset = if Self::is_connection_error(failure.code) {
                    Some(node_id)
                } else {
                    None
                };
                let message = String::from_str("Failed to write shard: ").concat(
                    failure.message.as_str(),
                );
                WriteOutcome { result: Err(ShardError::RpcError(message)), reset }
            },
        }
    }

    /// The result of a write, once all its fragment writes have ended: success
    /// with one unit for each of them if every one succeeded, else the first
    /// failure in the order of the fragments.
    pub fn join_writes(results: Vec<Result<(), ShardError>>) -> (r: Result<Vec<()>, ShardError>)
        ensures
            match r {
                Ok(done) => {
                    &&& done.len() == results.len()
                    &&& forall|i: int| 0 <= i < results.len() ==> results[i] is Ok
                },
                Err(e) => exists|i: int| first_failure_at(results@, i) && results[i] == Err::<(), _>(e),
            },
    {
        let ghost all = results@;
        let mut results = results;
        let mut done: Vec<()> = Vec::new();
        let mut failure: Option<ShardError> = None;
        while results.len() > 0
            invariant
                results@ == all.subrange(0, results.len() as int),
                results.len() <= all.len(),
                done.len() == all.len() - results.len(),
                match failure {
                    Some(e) => exists|i: int|
                        results.len() <= i < all.len() && all[i] == Err::<(), _>(e) && forall|j: int|
                            results.len() <= j < i ==> all[j] is Ok,
                    None => forall|j: int| results.len() <= j < all.len() ==> all[j] is Ok,
                },
            decreases results.len(),
        {
            let ghost position = results.len() - 1;
            let last = results.pop();
            assert(results@ =~= all.subrange(0, results.len() as int));
            match last {
                Some(Err(e)) => {
                    assert(all[position] == Err::<(), _>(e));
                    failure = Some(e);
                },
                _ => {
                    assert(all[position] is Ok);
                },
            }
            done.push(());
        }
        match failure {
            Some(e) => {
                return Err(e);
            },
            None => {},
        }
        Ok(done)
    }
}

} // verus!
