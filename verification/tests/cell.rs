use location_store::dto::{EnrichedLocationStats, LocationStats, ShardError};
use location_store::location_actor::{LocationActor, ShardWrite};
use location_store::node::{RpcCode, RpcFailure};
use std::collections::HashMap;

fn reading(seismic: f64) -> LocationStats {
    LocationStats {
        id: "00000000-0000-0000-0000-000000000001".to_string(),
        seismic_activity: seismic.to_bits(),
        temperature_c: 2.0f64.to_bits(),
        radiation_level: 3.0f64.to_bits(),
    }
}

#[test]
fn test_put_shard_and_get_shard() {
    let test_shard_data = vec![1, 2, 3, 4, 5];
    let mut cell = LocationActor::new();

    let put_result = cell.put_shard(test_shard_data.clone());
    assert!(put_result.is_ok());

    let get_result = cell.get_shard(&"test_location_1".to_owned());
    match get_result {
        Ok(returned_data) => {
            assert_eq!(returned_data, test_shard_data);
        }
        Err(e) => {
            panic!("Expected successful GetShard, got error: {:?}", e);
        }
    }
}

#[test]
fn test_get_shard_when_not_initialized() {
    let cell = LocationActor::new();
    let get_result = cell.get_shard(&"test_location_2".to_owned());
    match get_result {
        Ok(_) => {
            panic!("Expected error, got successful response");
        }
        Err(error) => {
            if let ShardError::NotFoundError(message) = error {
                assert_eq!(message, "Shard not found for location test_location_2");
            } else {
                panic!("Expected NotFound error, got: {:?}", error);
            }
        }
    }
}

#[test]
fn test_multiple_put_shard_operations() {
    let first_shard = vec![1, 2, 3];
    let second_shard = vec![4, 5, 6];
    let mut cell = LocationActor::new();

    let put_result1 = cell.put_shard(first_shard);
    assert!(put_result1.is_ok());

    let get_result1 = cell.get_shard(&"test_location_3".to_owned());
    assert_eq!(get_result1.unwrap(), vec![1, 2, 3]);

    let put_result2 = cell.put_shard(second_shard);
    assert!(put_result2.is_ok());

    let get_result2 = cell.get_shard(&"test_location_3".to_owned());
    assert_eq!(get_result2.unwrap(), vec![4, 5, 6]);
}

#[test]
fn test_large_shard_data() {
    let mut cell = LocationActor::new();
    let large_shard = vec![0u8; 1_000_000];

    let put_result = cell.put_shard(large_shard.clone());
    assert!(put_result.is_ok());

    let returned_data = cell.get_shard(&"test_location_6".to_owned()).unwrap();
    assert_eq!(returned_data.len(), 1_000_000);
    assert_eq!(returned_data, large_shard);
}

#[test]
fn fresh_cell_holds_nothing() {
    let cell = LocationActor::new();
    assert_eq!(cell.modification_count(), 0);
    assert!(cell.get_location().is_err());
    assert!(cell.get_shard(&"k".to_string()).is_err());
}

#[test]
fn read_after_write_has_the_next_count() {
    let mut cell = LocationActor::new();
    let record = cell.put_location(reading(1.0));
    assert_eq!(record.modification_count, 1);
    let read = cell.get_location().unwrap();
    assert_eq!(read.id, "00000000-0000-0000-0000-000000000001");
    assert_eq!(read.modification_count, 1);
    assert_eq!(f64::from_bits(read.seismic_activity), 1.0);
    assert_eq!(f64::from_bits(read.temperature_c), 2.0);
    assert_eq!(f64::from_bits(read.radiation_level), 3.0);
}

#[test]
fn three_writes_count_to_three_and_keep_the_last() {
    let mut cell = LocationActor::new();
    cell.put_location(reading(1.0));
    cell.put_location(reading(5.0));
    cell.put_location(reading(9.0));
    let read = cell.get_location().unwrap();
    assert_eq!(read.modification_count, 3);
    assert_eq!(f64::from_bits(read.seismic_activity), 9.0);
}

#[test]
fn identical_writes_are_counted_each() {
    let mut cell = LocationActor::new();
    let first = cell.put_location(reading(1.0));
    let second = cell.put_location(reading(1.0));
    assert_eq!(second.modification_count, first.modification_count + 1);
}

#[test]
fn writes_and_fragments_do_not_touch_each_other() {
    let mut cell = LocationActor::new();
    cell.put_shard(vec![7; 12]).unwrap();
    cell.put_location(reading(1.0));
    assert_eq!(cell.get_shard(&"k".to_string()).unwrap(), vec![7; 12]);
    cell.put_shard(vec![8; 12]).unwrap();
    assert_eq!(cell.get_location().unwrap().modification_count, 1);
    assert_eq!(cell.modification_count(), 1);
}

#[test]
fn cell_counts_unknown_as_connection_error() {
    for code in [
        RpcCode::Unavailable,
        RpcCode::DeadlineExceeded,
        RpcCode::Cancelled,
        RpcCode::Aborted,
        RpcCode::Unknown,
    ] {
        assert!(LocationActor::is_connection_error(code));
    }
    for code in [
        RpcCode::Success,
        RpcCode::InvalidArgument,
        RpcCode::NotFound,
        RpcCode::AlreadyExists,
        RpcCode::PermissionDenied,
        RpcCode::ResourceExhausted,
        RpcCode::FailedPrecondition,
        RpcCode::OutOfRange,
        RpcCode::Unimplemented,
        RpcCode::Internal,
        RpcCode::DataLoss,
        RpcCode::Unauthenticated,
    ] {
        assert!(!LocationActor::is_connection_error(code));
    }
}

fn record() -> EnrichedLocationStats {
    EnrichedLocationStats::from(4, reading(1.0))
}

fn channels(nodes: &[u32]) -> HashMap<u32, u64> {
    nodes.iter().map(|n| (*n, 100 + *n as u64)).collect()
}

fn targets(writes: &[ShardWrite]) -> Vec<u32> {
    writes.iter().map(|w| w.node_id).collect()
}

#[test]
fn write_sends_the_six_fragments_past_the_owner() {
    let all = location_store::codec::encode(&record()).unwrap();
    let writes =
        LocationActor::write(&"abc".to_string(), &record(), 2, &channels(&[0, 1, 2, 3, 4, 5, 6]))
            .unwrap();
    assert_eq!(targets(&writes), vec![0, 1, 3, 4, 5, 6]);
    for (i, write) in writes.iter().enumerate() {
        assert_eq!(write.shard, all[i]);
        assert_eq!(write.location_id, "abc");
        assert_eq!(write.channel, 100 + write.node_id as u64);
    }
}

#[test]
fn write_from_the_first_and_the_last_node() {
    let all = channels(&[0, 1, 2, 3, 4, 5, 6]);
    let writes = LocationActor::write(&"k".to_string(), &record(), 0, &all).unwrap();
    assert_eq!(targets(&writes), vec![1, 2, 3, 4, 5, 6]);
    let writes = LocationActor::write(&"k".to_string(), &record(), 6, &all).unwrap();
    assert_eq!(targets(&writes), vec![0, 1, 2, 3, 4, 5]);
}

#[test]
fn write_fails_where_a_peer_has_no_channel() {
    match LocationActor::write(&"k".to_string(), &record(), 1, &channels(&[0, 3, 6])) {
        Err(ShardError::ChannelError(message)) => assert_eq!(message, "No channel found for node 2"),
        _ => panic!("Expected ChannelError"),
    }
    match LocationActor::write(&"k".to_string(), &record(), 1, &channels(&[0, 2, 3, 4, 5])) {
        Err(ShardError::ChannelError(message)) => assert_eq!(message, "No channel found for node 6"),
        _ => panic!("Expected ChannelError"),
    }
    assert!(matches!(
        LocationActor::write(&"k".to_string(), &record(), 1, &HashMap::new()),
        Err(ShardError::ChannelError(_))
    ));
}

#[test]
fn write_needs_no_channel_to_the_owner_itself() {
    let writes =
        LocationActor::write(&"k".to_string(), &record(), 1, &channels(&[0, 2, 3, 4, 5, 6]))
            .unwrap();
    assert_eq!(writes.len(), 6);
    assert_eq!(targets(&writes), vec![0, 2, 3, 4, 5, 6]);
}

#[test]
fn a_write_succeeds_only_if_all_six_fragments_were_taken() {
    let all = channels(&[0, 1, 2, 3, 4, 5, 6]);
    let writes = LocationActor::write(&"k".to_string(), &record(), 3, &all).unwrap();
    let mut results = Vec::new();
    for write in &writes {
        let reply = if write.node_id == 5 {
            Err(RpcFailure { code: RpcCode::Unavailable, message: "down".to_string() })
        } else {
            Ok(())
        };
        results.push(LocationActor::write_shard_to_node(write.node_id, reply).result);
    }
    assert_eq!(results.len(), 6);
    assert!(matches!(LocationActor::join_writes(results), Err(ShardError::RpcError(_))));
}

#[test]
fn write_of_a_record_without_uuid_fails() {
    let bad = EnrichedLocationStats::new("x".to_string(), 1, 0, 0, 0).unwrap();
    let result = LocationActor::write(&"k".to_string(), &bad, 1, &channels(&[0, 2]));
    assert!(matches!(result, Err(ShardError::EncodingError(_))));
}

#[test]
fn failed_fragment_write_becomes_rpc_error() {
    let ok = LocationActor::write_shard_to_node(3, Ok(()));
    assert!(ok.result.is_ok());
    assert_eq!(ok.reset, None);

    let down = LocationActor::write_shard_to_node(
        3,
        Err(RpcFailure { code: RpcCode::Unavailable, message: "peer is down".to_string() }),
    );
    match down.result {
        Err(ShardError::RpcError(message)) => {
            assert_eq!(message, "Failed to write shard: peer is down")
        }
        _ => panic!("Expected RpcError"),
    }
    assert_eq!(down.reset, Some(3));

    let refused = LocationActor::write_shard_to_node(
        5,
        Err(RpcFailure { code: RpcCode::PermissionDenied, message: "no".to_string() }),
    );
    assert!(matches!(refused.result, Err(ShardError::RpcError(_))));
    assert_eq!(refused.reset, None);
}

#[test]
fn join_succeeds_only_if_every_write_did() {
    let done = LocationActor::join_writes(vec![Ok(()), Ok(()), Ok(())]).unwrap();
    assert_eq!(done.len(), 3);
    assert_eq!(LocationActor::join_writes(vec![]).unwrap().len(), 0);

    let failed = LocationActor::join_writes(vec![
        Ok(()),
        Err(ShardError::RpcError("second".to_string())),
        Ok(()),
        Err(ShardError::RpcError("fourth".to_string())),
    ]);
    match failed {
        Err(ShardError::RpcError(message)) => assert_eq!(message, "second"),
        _ => panic!("Expected the first failure"),
    }
}
