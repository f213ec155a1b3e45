//! The boundary to the `uuid` and `reed-solomon-simd` crates.
//!
//! Everything stated here is taken on trust from those crates: Verus checks
//! the callers against these contracts and never reads the bodies below.

use std::collections::HashMap;
use vstd::prelude::*;

verus! {

/// The 16 bytes that `uuid::Uuid::parse_str` reads out of `text`, or `None`
/// where it refuses the text. The crate accepts several spellings of one
/// UUID (plain, hyphenated, braced, URN; either letter case), so the grammar is
/// left to it and only named here.
pub uninterp spec fn uuid_parsed(text: Seq<char>) -> Option<Seq<u8>>;

/// The lower-case hexadecimal digit for a value below 16.
pub open spec fn hex_digit(value: int) -> char {
    if value < 10 {
        ((value + 48) as u8) as char
    } else {
        ((value + 87) as u8) as char
    }
}

/// Position, among the 32 hexadecimal digits of a UUID, of the digit that
/// stands at `column` of its hyphenated text.
pub open spec fn hex_position(column: int) -> int {
    if column < 8 {
        column
    } else if column < 13 {
        column - 1
    } else if column < 18 {
        column - 2
    } else if column < 23 {
        column - 3
    } else {
        column - 4
    }
}

/// The canonical text of a UUID: 32 lower-case hexadecimal digits, two per
/// byte with the high half first, in groups of 8, 4, 4, 4 and 12 separated by
/// hyphens.
pub open spec fn uuid_hyphenated(bytes: Seq<u8>) -> Seq<char> {
    Seq::new(
        36,
        |column: int|
            if column == 8 || column == 13 || column == 18 || column == 23 {
                '-'
            } else {
                let digit = hex_position(column);
                let byte = bytes[digit / 2] as int;
                hex_digit(
                    if digit % 2 == 0 {
                        byte / 16
                    } else {
                        byte % 16
                    },
                )
            },
    )
}

/// Calls `uuid::Uuid::parse_str` and hands back the bytes of the UUID it read.
/// Trusted: the outcome is the one named by [`uuid_parsed`].
#[verifier::external_body]
pub(crate) fn parse_uuid(text: &str) -> (bytes: Option<[u8; 16]>)
    ensures
        bytes matches Some(b) ==> uuid_parsed(text@) == Some(b@),
        bytes is None ==> uuid_parsed(text@) is None,
{
    match uuid::Uuid::parse_str(text) {
        Ok(id) => Some(*id.as_bytes()),
        Err(_) => None,
    }
}

/// Calls `uuid::Uuid::from_slice` and renders the UUID with `to_string`.
/// Trusted: a slice is accepted exactly when it is 16 bytes long; the text is
/// the lower-case hyphenated form, and `parse_str` reads the same bytes back
/// out of it.
#[verifier::external_body]
pub(crate) fn format_uuid(bytes: &[u8]) -> (text: Option<String>)
    ensures
        text is Some <==> bytes@.len() == 16,
        text matches Some(t) ==> t@ == uuid_hyphenated(bytes@) && uuid_parsed(t@) == Some(
            bytes@,
        ),
{
    match uuid::Uuid::from_slice(bytes) {
        Ok(id) => Some(id.to_string()),
        Err(_) => None,
    }
}

#[verifier::external_type_specification]
#[verifier::external_body]
pub struct ExReedSolomonError(reed_solomon_simd::Error);

/// Byte `position` of recovery shard `shard` that `reed_solomon_simd::encode`
/// computes for the given original shards.
pub uninterp spec fn rs_recovery_byte(
    original_count: int,
    recovery_count: int,
    original: Seq<Seq<u8>>,
    shard: int,
    position: int,
) -> u8;

/// Byte `position` of the original shard `shard` that
/// `reed_solomon_simd::decode` restores from the shards it is given.
pub uninterp spec fn rs_restored_byte(
    original_count: int,
    recovery_count: int,
    original: Map<usize, Seq<u8>>,
    recovery: Map<usize, Seq<u8>>,
    shard: int,
    position: int,
) -> u8;

/// The shards of a map as byte sequences.
pub open spec fn shard_bytes(shards: Map<usize, Vec<u8>>) -> Map<usize, Seq<u8>> {
    shards.map_values(|shard: Vec<u8>| shard@)
}

/// The inputs that the encoder accepts: exactly `original_count` shards of one
/// common length, which is even and not zero.
pub open spec fn rs_encodable(original_count: int, original: Seq<Seq<u8>>) -> bool {
    &&& original.len() == original_count
    &&& original_count > 0
    &&& original[0].len() > 0
    &&& original[0].len() % 2 == 0
    &&& forall|i: int| 0 <= i < original.len() ==> (#[trigger] original[i]).len() == original[0].len()
}

/// The inputs on which the decoder succeeds. Without recovery shards all
/// originals must be there. With some, all shards given must share one even,
/// non-zero length and be at least `original_count` together.
pub open spec fn rs_decodable(
    original_count: int,
    original: Map<usize, Seq<u8>>,
    recovery: Map<usize, Seq<u8>>,
) -> bool {
    if recovery.len() == 0 {
        original.len() == original_count
    } else {
        &&& original.len() + recovery.len() >= original_count
        &&& forall|j: usize| #[trigger]
            recovery.contains_key(j) ==> recovery[j].len() > 0 && recovery[j].len() % 2 == 0
        &&& forall|j: usize, l: usize|
            #![trigger recovery.contains_key(j), recovery.contains_key(l)]
            recovery.contains_key(j) && recovery.contains_key(l) ==> recovery[j].len()
                == recovery[l].len()
        &&& forall|i: usize, j: usize|
            #![trigger original.contains_key(i), recovery.contains_key(j)]
            original.contains_key(i) && recovery.contains_key(j) ==> original[i].len()
                == recovery[j].len()
    }
}

/// `data` is a full set of original shards of which `original` holds some, and
/// `recovery` holds some of the recovery shards that the encoder computes for
/// `data`.
pub open spec fn rs_explains(
    original_count: int,
    recovery_count: int,
    data: Seq<Seq<u8>>,
    original: Map<usize, Seq<u8>>,
    recovery: Map<usize, Seq<u8>>,
) -> bool {
    &&& rs_encodable(original_count, data)
    &&& forall|i: usize| #[trigger]
        original.contains_key(i) ==> i < original_count && original[i] == data[i as int]
    &&& forall|j: usize| #[trigger]
        recovery.contains_key(j) ==> {
            &&& j < recovery_count
            &&& recovery[j].len() == data[0].len()
            &&& forall|k: int|
                0 <= k < data[0].len() ==> #[trigger] recovery[j][k] == rs_recovery_byte(
                    original_count,
                    recovery_count,
                    data,
                    j as int,
                    k,
                )
        }
}

/// Calls `reed_solomon_simd::encode`.
/// Trusted: it succeeds exactly on the inputs of [`rs_encodable`], and then
/// returns `recovery_count` shards as long as the originals, whose bytes are
/// the ones named by [`rs_recovery_byte`].
#[verifier::external_body]
pub(crate) fn rs_encode(original_count: usize, recovery_count: usize, original: &Vec<Vec<u8>>) -> (r:
    Result<Vec<Vec<u8>>, reed_solomon_simd::Error>)
    requires
        1 <= original_count <= 32768,
        1 <= recovery_count <= 32768,
    ensures
        r is Ok <==> rs_encodable(original_count as int, original.deep_view()),
        r matches Ok(recovery) ==> {
            &&& recovery.len() == recovery_count
            &&& forall|j: int|
                0 <= j < recovery_count ==> (#[trigger] recovery[j]).len() == original[0].len()
            &&& forall|j: int, k: int|
                0 <= j < recovery_count && 0 <= k < original[0].len() ==> #[trigger] recovery[j][k]
                    == rs_recovery_byte(
                    original_count as int,
                    recovery_count as int,
                    original.deep_view(),
                    j,
                    k,
                )
        },
{
    reed_solomon_simd::encode(original_count, recovery_count, original)
}

/// Calls `reed_solomon_simd::decode` with the shards of the two maps, each
/// under its key as index.
/// Trusted: it succeeds exactly on the inputs of [`rs_decodable`]. It then
/// returns the original shards that were not given, and only those. Their
/// bytes are the ones named by [`rs_restored_byte`]; and where the shards given
/// come from one encoding, each restored shard is the original of that
/// encoding.
#[verifier::external_body]
pub(crate) fn rs_decode(
    original_count: usize,
    recovery_count: usize,
    original: &HashMap<usize, Vec<u8>>,
    recovery: &HashMap<usize, Vec<u8>>,
) -> (r: Result<HashMap<usize, Vec<u8>>, reed_solomon_simd::Error>)
    requires
        1 <= original_count <= 32768,
        1 <= recovery_count <= 32768,
        forall|i: usize| original@.contains_key(i) ==> i < original_count,
        forall|j: usize| recovery@.contains_key(j) ==> j < recovery_count,
    ensures
        r is Ok <==> rs_decodable(
            original_count as int,
            shard_bytes(original@),
            shard_bytes(recovery@),
        ),
        r matches Ok(restored) ==> {
            &&& forall|i: usize|
                restored@.contains_key(i) <==> i < original_count && !original@.contains_key(i)
            &&& forall|i: usize, j: usize|
                restored@.contains_key(i) && recovery@.contains_key(j) ==> (
                #[trigger] restored@[i])@.len() == (#[trigger] recovery@[j])@.len()
            &&& forall|i: usize, k: int|
                restored@.contains_key(i) && 0 <= k < restored@[i]@.len() ==> #[trigger] restored@[i]@[k]
                    == rs_restored_byte(
                    original_count as int,
                    recovery_count as int,
                    shard_bytes(original@),
                    shard_bytes(recovery@),
                    i as int,
                    k,
                )
            &&& forall|data: Seq<Seq<u8>>| #[trigger]
                rs_explains(
                    original_count as int,
                    recovery_count as int,
                    data,
                    shard_bytes(original@),
                    shard_bytes(recovery@),
                ) ==> forall|i: usize|
                    restored@.contains_key(i) ==> (#[trigger] restored@[i])@ == data[i as int]
        },
{
    let given = original.iter().map(|(index, shard)| (*index, shard));
    let parity = recovery.iter().map(|(index, shard)| (*index, shard));
    match reed_solomon_simd::decode(original_count, recovery_count, given, parity) {
        Ok(restored) => Ok(restored.into_iter().collect()),
        Err(error) => Err(error),
    }
}

} // verus!
