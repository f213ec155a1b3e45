use location_store::api::{
    get_located, get_reconstructed, get_sharded, index, is_connection_error, put_forwarded,
    put_route, put_written, read_shard_from_node, GetStep, HttpReply, PutRoute,
};
use location_store::codec::encode;
use location_store::dto::{EnrichedLocationStats, ShardError};
use location_store::node::{
    get_shard_reply, internal_failure, route_write_reply, write_shard_reply, GetShardResponse,
    RpcCode, RpcFailure,
};
use location_store::util::{fragment_target, get_owner_node_id, registry_index, rpc_port};

fn record() -> EnrichedLocationStats {
    EnrichedLocationStats::new(
        "00000000-0000-0000-0000-000000000001".to_string(),
        3,
        1.0f64.to_bits(),
        2.0f64.to_bits(),
        3.0f64.to_bits(),
    )
    .unwrap()
}

fn empty() -> GetShardResponse {
    GetShardResponse { shard: None, location_stats: None }
}

/// The replies of the seven nodes for a location owned by `owner`, where the
/// nodes of `present` hold their fragment.
fn replies(owner: u32, present: &[u32]) -> Vec<GetShardResponse> {
    let all = encode(&record()).unwrap();
    let mut replies: Vec<GetShardResponse> = (0..7).map(|_| empty()).collect();
    for i in 0..6usize {
        let node = fragment_target(i, owner);
        if present.contains(&node) {
            replies[node as usize].shard = Some(all[i].clone());
        }
    }
    replies
}

fn found(reply: HttpReply) -> EnrichedLocationStats {
    match reply {
        HttpReply::Found(record) => record,
        _ => panic!("Expected a record"),
    }
}

fn failure(reply: HttpReply) -> String {
    match reply {
        HttpReply::InternalError(message) => message,
        _ => panic!("Expected an internal error"),
    }
}

#[test]
fn status_codes() {
    assert_eq!(index().status(), 200);
    assert_eq!(HttpReply::Created.status(), 201);
    assert_eq!(HttpReply::Found(record()).status(), 200);
    assert_eq!(HttpReply::NotFound.status(), 404);
    assert_eq!(HttpReply::InternalError("x".to_string()).status(), 500);
    assert!(matches!(index(), HttpReply::Pong));
}

#[test]
fn dispatcher_does_not_count_unknown_as_connection_error() {
    for code in
        [RpcCode::Unavailable, RpcCode::DeadlineExceeded, RpcCode::Cancelled, RpcCode::Aborted]
    {
        assert!(is_connection_error(code));
    }
    for code in [RpcCode::Unknown, RpcCode::Internal, RpcCode::NotFound, RpcCode::Success] {
        assert!(!is_connection_error(code));
    }
}

#[test]
fn write_goes_to_the_owner() {
    // "abc" is owned by node 6
    assert_eq!(put_route(0, "abc".to_string()), PutRoute::Forward(6));
    assert_eq!(put_route(6, "abc".to_string()), PutRoute::Local(6));
    assert_eq!(put_route(0, String::new()), PutRoute::Local(0));
}

#[test]
fn forwarded_write_answers() {
    let (reply, reset) = put_forwarded(6, Ok(()));
    assert_eq!(reply.status(), 201);
    assert_eq!(reset, None);

    let (reply, reset) = put_forwarded(
        6,
        Err(RpcFailure { code: RpcCode::DeadlineExceeded, message: "late".to_string() }),
    );
    assert_eq!(failure(reply), "Failed to route write");
    assert_eq!(reset, Some(6));

    let (reply, reset) =
        put_forwarded(6, Err(RpcFailure { code: RpcCode::Unknown, message: "?".to_string() }));
    assert_eq!(reply.status(), 500);
    assert_eq!(reset, None);
}

#[test]
fn local_write_answers() {
    assert_eq!(put_written(Ok(vec![(); 6])).status(), 201);
    assert_eq!(
        failure(put_written(Err(ShardError::RpcError("x".to_string())))),
        "Failed to put location stats"
    );
}

#[test]
fn read_steps() {
    match get_located(Ok(record())) {
        GetStep::Respond(reply) => assert_eq!(found(reply).modification_count, 3),
        _ => panic!("Expected an answer"),
    }
    assert!(matches!(get_located(Err(())), GetStep::AskShard));
    assert!(matches!(get_sharded(Ok(vec![1, 2])), GetStep::FanOut));
    match get_sharded(Err(ShardError::NotFoundError("none".to_string()))) {
        GetStep::Respond(reply) => assert_eq!(reply.status(), 404),
        _ => panic!("Expected an answer"),
    }
}

#[test]
fn failed_fragment_read_counts_as_empty() {
    let read = read_shard_from_node(
        2,
        Ok(GetShardResponse { shard: Some(vec![1, 2, 3]), location_stats: None }),
    );
    assert_eq!(read.response.shard, Some(vec![1, 2, 3]));
    assert_eq!(read.reset, None);

    let read = read_shard_from_node(
        2,
        Err(RpcFailure { code: RpcCode::Unavailable, message: "down".to_string() }),
    );
    assert!(read.response.shard.is_none());
    assert!(read.response.location_stats.is_none());
    assert_eq!(read.reset, Some(2));

    let read = read_shard_from_node(
        2,
        Err(RpcFailure { code: RpcCode::NotFound, message: "none".to_string() }),
    );
    assert!(read.response.shard.is_none());
    assert_eq!(read.reset, None);
}

#[test]
fn owner_record_is_the_answer() {
    let owner = get_owner_node_id("abc".to_string());
    let mut all = replies(owner, &[]);
    all[owner as usize].location_stats = Some(record());
    let back = found(get_reconstructed("abc".to_string(), all));
    assert_eq!(back.modification_count, 3);
    assert_eq!(back.id, "00000000-0000-0000-0000-000000000001");
}

#[test]
fn record_of_another_node_is_not_taken() {
    let owner = get_owner_node_id("abc".to_string());
    let mut all = replies(owner, &[]);
    all[0].location_stats = Some(record());
    assert_eq!(failure(get_reconstructed("abc".to_string(), all)), "Not enough shards");
}

#[test]
fn four_fragments_rebuild_the_record() {
    // "k" is owned by node 2: 'k' = 107, 107 % 7 = 2
    assert_eq!(get_owner_node_id("k".to_string()), 2);
    let back = found(get_reconstructed("k".to_string(), replies(2, &[0, 3, 5, 6])));
    assert_eq!(back.id, "00000000-0000-0000-0000-000000000001");
    assert_eq!(back.modification_count, 3);
    assert_eq!(f64::from_bits(back.seismic_activity), 1.0);
    assert_eq!(f64::from_bits(back.temperature_c), 2.0);
    assert_eq!(f64::from_bits(back.radiation_level), 3.0);
}

#[test]
fn three_fragments_are_not_enough() {
    let reply = get_reconstructed("k".to_string(), replies(2, &[0, 3, 6]));
    assert_eq!(reply.status(), 500);
    assert_eq!(failure(reply), "Not enough shards");
}

#[test]
fn every_four_of_the_six_peers_rebuild_the_record() {
    for owner_key in ["k", "abc", ""] {
        let owner = get_owner_node_id(owner_key.to_string());
        let peers: Vec<u32> = (0..7).filter(|n| *n != owner).collect();
        for mask in 0u32..64 {
            let present: Vec<u32> =
                (0..6).filter(|i| mask & (1 << i) != 0).map(|i| peers[i]).collect();
            let reply = get_reconstructed(owner_key.to_string(), replies(owner, &present));
            if present.len() >= 4 {
                let back = found(reply);
                assert_eq!(back.modification_count, 3);
                assert_eq!(f64::from_bits(back.radiation_level), 3.0);
            } else {
                assert_eq!(failure(reply), "Not enough shards");
            }
        }
    }
}

#[test]
fn fragment_on_the_owner_slot_is_not_counted() {
    let owner = 2;
    let mut all = replies(owner, &[0, 3, 6]);
    all[owner as usize].shard = Some(vec![0; 12]);
    assert_eq!(failure(get_reconstructed("k".to_string(), all)), "Not enough shards");
}

#[test]
fn fragments_that_do_not_fit_fail() {
    let mut all = replies(2, &[0, 1, 3, 5]);
    all[1].shard = Some(vec![1, 2, 3]);
    assert_eq!(failure(get_reconstructed("k".to_string(), all)), "Failed to restore shard");
}

#[test]
fn data_fragments_of_wrong_length_fail_at_reassembly() {
    // all four data fragments present and no parity: nothing to decode
    let mut all = replies(2, &[0, 1, 3, 4]);
    all[1].shard = Some(vec![1, 2, 3]);
    assert_eq!(failure(get_reconstructed("k".to_string(), all)), "Failed to decode shards");
}

#[test]
fn fragment_targets_skip_the_owner() {
    for owner in 0..7u32 {
        let targets: Vec<u32> = (0..6).map(|i| fragment_target(i, owner)).collect();
        let peers: Vec<u32> = (0..7).filter(|n| *n != owner).collect();
        assert_eq!(targets, peers);
    }
}

#[test]
fn owner_is_always_a_node_of_the_cluster() {
    for key in ["", "a", "abc", "never-written", "\u{1F600}x", "00000000-0000-0000-0000-000000000001"] {
        let owner = get_owner_node_id(key.to_string());
        assert!(owner < 7);
        assert_eq!(owner, get_owner_node_id(key.to_string()));
        assert_eq!(registry_index(key.to_string()), owner as usize);
    }
    // 'z' = 122, 122 % 7 = 3; then ('z','z'): (3 * 10) % 7 = 2, 2 + 3 = 5
    assert_eq!(get_owner_node_id("z".to_string()), 3);
    assert_eq!(get_owner_node_id("zz".to_string()), 5);
}

#[test]
fn rpc_port_is_eighty_above() {
    assert_eq!(rpc_port(8080), Some(8160));
    assert_eq!(rpc_port(0), Some(80));
    assert_eq!(rpc_port(65455), Some(65535));
    assert_eq!(rpc_port(65456), None);
}

#[test]
fn peer_replies() {
    assert!(route_write_reply(Ok(vec![(); 6])).is_ok());
    match route_write_reply(Err(ShardError::RpcError("down".to_string()))) {
        Err(f) => {
            assert_eq!(f.code, RpcCode::Internal);
            assert_eq!(f.message, "Rpc Error: down");
        }
        _ => panic!("Expected a failure"),
    }
    assert!(write_shard_reply(Ok(())).is_ok());
    match write_shard_reply(Err(ShardError::InvalidShard("short".to_string()))) {
        Err(f) => {
            assert_eq!(f.code, RpcCode::Internal);
            assert_eq!(f.message, "Invalid shard: short");
        }
        _ => panic!("Expected a failure"),
    }
    let f = internal_failure(&ShardError::ActorError("closed".to_string()));
    assert_eq!(f.code, RpcCode::Internal);
    assert_eq!(f.message, "Actor Error: closed");
}

#[test]
fn fragment_read_replies_with_what_the_cell_holds() {
    let both = get_shard_reply(Ok(vec![1, 2]), Ok(record())).ok().unwrap();
    assert_eq!(both.shard, Some(vec![1, 2]));
    assert_eq!(both.location_stats.unwrap().modification_count, 3);

    let shard_only = get_shard_reply(Ok(vec![1, 2]), Err(())).ok().unwrap();
    assert_eq!(shard_only.shard, Some(vec![1, 2]));
    assert!(shard_only.location_stats.is_none());

    let record_only =
        get_shard_reply(Err(ShardError::NotFoundError("x".to_string())), Ok(record())).ok().unwrap();
    assert!(record_only.shard.is_none());
    assert!(record_only.location_stats.is_some());

    let neither =
        get_shard_reply(Err(ShardError::NotFoundError("x".to_string())), Err(())).ok().unwrap();
    assert!(neither.shard.is_none());
    assert!(neither.location_stats.is_none());
}
