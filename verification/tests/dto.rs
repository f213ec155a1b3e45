use location_store::dto::{EnrichedLocationStats, LocationStats, ShardError, SHARD_SIZE};

fn stats(id: &str, count: i64, seismic: f64, temperature: f64, radiation: f64) -> EnrichedLocationStats {
    EnrichedLocationStats::new(
        id.to_string(),
        count,
        seismic.to_bits(),
        temperature.to_bits(),
        radiation.to_bits(),
    )
    .unwrap()
}

#[test]
fn test_new_valid_id() {
    let result = EnrichedLocationStats::new(
        "bac32c52-bb64-476d-a36d-91069bbd8a5e".to_string(),
        42,
        3.14f64.to_bits(),
        25.5f64.to_bits(),
        0.001f64.to_bits(),
    );

    assert!(result.is_ok());
    let stats = result.unwrap();
    assert_eq!(stats.id, "bac32c52-bb64-476d-a36d-91069bbd8a5e");
    assert_eq!(stats.modification_count, 42);
    assert_eq!(f64::from_bits(stats.seismic_activity), 3.14);
    assert_eq!(f64::from_bits(stats.temperature_c), 25.5);
    assert_eq!(f64::from_bits(stats.radiation_level), 0.001);
}

#[test]
fn test_encode_decode_roundtrip() {
    let original = stats("b6517ac5-2bf3-4a97-864a-ab4561381d5e", 100, 5.678, -10.5, 0.0123);

    let shards = original.to_shards().unwrap();

    for shard in &shards {
        assert_eq!(shard.len(), SHARD_SIZE);
    }

    let decoded = EnrichedLocationStats::from_shards(shards).unwrap();

    assert_eq!(decoded.id, original.id);
    assert_eq!(decoded.modification_count, original.modification_count);
    assert_eq!(f64::from_bits(decoded.seismic_activity), 5.678);
    assert_eq!(f64::from_bits(decoded.temperature_c), -10.5);
    assert_eq!(f64::from_bits(decoded.radiation_level), 0.0123);
}

#[test]
fn test_extreme_values() {
    let stats = stats(
        "bac32c52-bb64-476d-a36d-91069bbd8a5e",
        i64::MAX,
        f64::MAX,
        f64::MIN_POSITIVE,
        f64::NEG_INFINITY,
    );

    let shards = stats.to_shards().unwrap();
    let decoded = EnrichedLocationStats::from_shards(shards).unwrap();

    assert_eq!(decoded.id, "bac32c52-bb64-476d-a36d-91069bbd8a5e");
    assert_eq!(decoded.modification_count, i64::MAX);
    assert_eq!(f64::from_bits(decoded.seismic_activity), f64::MAX);
    assert_eq!(f64::from_bits(decoded.temperature_c), f64::MIN_POSITIVE);
    assert_eq!(f64::from_bits(decoded.radiation_level), f64::NEG_INFINITY);
}

#[test]
fn test_from_shards_invalid_shard_size() {
    let shards = [
        vec![1, 2, 3],
        vec![4, 5, 6],
        vec![7, 8, 9],
        vec![10, 11, 12],
    ];

    let result = EnrichedLocationStats::from_shards(shards);

    assert!(result.is_err());
    match result {
        Err(ShardError::InvalidShard(msg)) => {
            assert!(msg.contains("incorrect size"));
        }
        _ => panic!("Expected InvalidShard"),
    }
}

#[test]
fn test_from_shards_inconsistent_sizes() {
    let valid_stats = stats("a6bdf0c3-8fbc-4371-8acd-c851e83fe248", 42, 3.14, 25.5, 0.001);

    let mut valid_shards = valid_stats.to_shards().unwrap();

    valid_shards[2].push(99);

    let result = EnrichedLocationStats::from_shards(valid_shards);

    assert!(result.is_err());
    match result {
        Err(ShardError::InvalidShard(msg)) => {
            assert!(msg.contains("incorrect size"));
        }
        _ => panic!("Expected InvalidShard"),
    }
}

#[test]
fn test_from_shards_corrupted_data() {
    let stats = stats("a6bdf0c3-8fbc-4371-8acd-c851e83fe248", 42, 3.14, 25.5, 0.001);

    let mut shards = stats.to_shards().unwrap();

    shards[2][0] = 0xFF;
    shards[2][1] = 0xFF;

    let decoded = EnrichedLocationStats::from_shards(shards).unwrap();

    assert_eq!(decoded.id, "a6bdf0c3-8fbc-4371-8acd-c851e83fe248");
    assert!(
        f64::from_bits(decoded.seismic_activity) != 3.14
            || f64::from_bits(decoded.temperature_c) != 25.5
            || f64::from_bits(decoded.radiation_level) != 0.001
    );
}

#[test]
fn misfit_message_names_the_first_short_shard() {
    let shards = [vec![0u8; 12], vec![0u8; 12], vec![0u8; 13], vec![0u8; 3]];
    match EnrichedLocationStats::from_shards(shards) {
        Err(ShardError::InvalidShard(msg)) => {
            assert_eq!(msg, "Shard 2 has incorrect size: 13 (expected 12)");
        }
        _ => panic!("Expected InvalidShard"),
    }
}

#[test]
fn record_layout_is_little_endian_after_the_id() {
    let record = EnrichedLocationStats::new(
        "00010203-0405-0607-0809-0a0b0c0d0e0f".to_string(),
        0x0102030405060708,
        0x1112131415161718,
        0x2122232425262728,
        0x3132333435363738,
    )
    .unwrap();
    let shards = record.to_shards().unwrap();
    assert_eq!(shards[0], vec![0, 1, 2, 3, 4, 5, 6, 7, 8, 9, 10, 11]);
    assert_eq!(shards[1], vec![12, 13, 14, 15, 8, 7, 6, 5, 4, 3, 2, 1]);
    assert_eq!(
        shards[2],
        vec![0x18, 0x17, 0x16, 0x15, 0x14, 0x13, 0x12, 0x11, 0x28, 0x27, 0x26, 0x25]
    );
    assert_eq!(
        shards[3],
        vec![0x24, 0x23, 0x22, 0x21, 0x38, 0x37, 0x36, 0x35, 0x34, 0x33, 0x32, 0x31]
    );
}

#[test]
fn negative_count_survives() {
    let record = EnrichedLocationStats::new(
        "bac32c52-bb64-476d-a36d-91069bbd8a5e".to_string(),
        i64::MIN,
        0,
        u64::MAX,
        1,
    )
    .unwrap();
    let back = EnrichedLocationStats::from_shards(record.to_shards().unwrap()).unwrap();
    assert_eq!(back.modification_count, i64::MIN);
    assert_eq!(back.seismic_activity, 0);
    assert_eq!(back.temperature_c, u64::MAX);
    assert_eq!(back.radiation_level, 1);
}

#[test]
fn id_comes_back_in_canonical_form() {
    let record = EnrichedLocationStats::new(
        "BAC32C52BB64476DA36D91069BBD8A5E".to_string(),
        1,
        0,
        0,
        0,
    )
    .unwrap();
    let back = EnrichedLocationStats::from_shards(record.to_shards().unwrap()).unwrap();
    assert_eq!(back.id, "bac32c52-bb64-476d-a36d-91069bbd8a5e");
}

#[test]
fn id_that_is_no_uuid_is_an_encoding_error() {
    let record = EnrichedLocationStats::new("not-a-uuid".to_string(), 1, 0, 0, 0).unwrap();
    match record.to_shards() {
        Err(ShardError::EncodingError(msg)) => assert_eq!(msg, "Record id is not a UUID"),
        _ => panic!("Expected EncodingError"),
    }
}

#[test]
fn enriched_from_puts_the_count_beside_the_reading() {
    let reading = LocationStats {
        id: "bac32c52-bb64-476d-a36d-91069bbd8a5e".to_string(),
        seismic_activity: 1.0f64.to_bits(),
        temperature_c: 2.0f64.to_bits(),
        radiation_level: 3.0f64.to_bits(),
    };
    let record = EnrichedLocationStats::from(7, reading.clone());
    assert_eq!(record.id, reading.id);
    assert_eq!(record.modification_count, 7);
    assert_eq!(f64::from_bits(record.seismic_activity), 1.0);
    assert_eq!(f64::from_bits(record.temperature_c), 2.0);
    assert_eq!(f64::from_bits(record.radiation_level), 3.0);
}

#[test]
fn error_text_has_heading_and_message() {
    assert_eq!(ShardError::EncodingError("a".to_string()).to_string(), "Encoding error: a");
    assert_eq!(ShardError::DecodingError("b".to_string()).to_string(), "Decoding error: b");
    assert_eq!(ShardError::InvalidShard("c".to_string()).to_string(), "Invalid shard: c");
    assert_eq!(ShardError::RpcError("d".to_string()).to_string(), "Rpc Error: d");
    assert_eq!(ShardError::ChannelError("e".to_string()).to_string(), "Channel Error: e");
    assert_eq!(ShardError::ActorError("f".to_string()).to_string(), "Actor Error: f");
    assert_eq!(
        ShardError::NotFoundError("g".to_string()).to_string(),
        "Shard Not found Error: g"
    );
}

#[test]
fn fragments_read_back_cut_into_the_same_fragments() {
    let shards: [Vec<u8>; 4] = [
        (0u8..12).collect(),
        (100u8..112).collect(),
        vec![255; 12],
        vec![0, 1, 0, 1, 0, 1, 0, 1, 0, 1, 0, 1],
    ];
    let record = EnrichedLocationStats::from_shards(shards.clone()).unwrap();
    assert_eq!(record.to_shards().unwrap(), shards);

    let mut other = shards.clone();
    other[3][11] = 2;
    let changed = EnrichedLocationStats::from_shards(other.clone()).unwrap();
    assert_ne!(changed.radiation_level, record.radiation_level);
    assert_eq!(changed.to_shards().unwrap(), other);
}
