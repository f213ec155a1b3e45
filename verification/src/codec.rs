//! The erasure code: a record becomes four data fragments and two parity
//! fragments, and any four of the six give the data fragments back.

use crate::dto::{
    fragments, lemma_fragments_reassemble, reassembled, record_bytes, EnrichedLocationStats,
    EnrichedLocationStatsView, ShardError,
};
use crate::outside::{
    rs_decodable, rs_decode, rs_encodable, rs_encode, rs_explains, rs_recovery_byte,
    rs_restored_byte, shard_bytes, uuid_hyphenated, uuid_parsed,
};
use std::collections::HashMap;
use vstd::prelude::*;
use vstd::std_specs::iter::IteratorSpec;
use vstd::string::StringExecFns;

verus! {

/// Data fragments of a record.
pub const DATA_SHARDS: usize = 4;

/// Parity fragments of a record.
pub const PARITY_SHARDS: usize = 2;

/// The two parity fragments of four data fragments: as long as the first data
/// fragment, with the bytes that the Reed-Solomon encoder computes.
pub open spec fn parity(data: Seq<Seq<u8>>) -> Seq<Seq<u8>> {
    Seq::new(
        2,
        |shard: int| Seq::new(data[0].len(), |position: int| rs_recovery_byte(4, 2, data, shard, position)),
    )
}

/// The six fragments of a record whose identifier has the bytes `id`: its four
/// data fragments, then their two parity fragments.
pub open spec fn encoded(id: Seq<u8>, record: EnrichedLocationStatsView) -> Seq<Seq<u8>> {
    fragments(record_bytes(id, record)) + parity(fragments(record_bytes(id, record)))
}

/// The fragment sets from which the data fragments can be had: data fragments
/// under indexes below 4, parity fragments under indexes below 2, and together
/// what the decoder needs.
pub open spec fn decodable(data: Map<usize, Seq<u8>>, parity: Map<usize, Seq<u8>>) -> bool {
    &&& forall|i: usize| data.contains_key(i) ==> i < 4
    &&& forall|j: usize| parity.contains_key(j) ==> j < 2
    &&& rs_decodable(4, data, parity)
}

/// Length of the parity fragments given.
pub open spec fn parity_length(parity: Map<usize, Seq<u8>>) -> nat {
    if parity.contains_key(0) {
        parity[0].len()
    } else {
        parity[1].len()
    }
}

/// The four data fragments after decoding: each one as it was given, or else
/// as the Reed-Solomon decoder restores it.
pub open spec fn decoded(data: Map<usize, Seq<u8>>, parity: Map<usize, Seq<u8>>) -> Seq<Seq<u8>> {
    Seq::new(
        4,
        |shard: int|
            if data.contains_key(shard as usize) {
                data[shard as usize]
            } else {
                Seq::new(
                    parity_length(parity),
                    |position: int| rs_restored_byte(4, 2, data, parity, shard, position),
                )
            },
    )
}

/// The message of a failed decoding.
pub open spec fn decoding_failure(data: Map<usize, Seq<u8>>, parity: Map<usize, Seq<u8>>) -> Seq<char> {
    if data.len() + parity.len() < 4 {
        "Not enough shards"@
    } else {
        "Failed to restore shard"@
    }
}

/// All four data fragments of an encoding, each under its index.
pub open spec fn data_part(encoding: Seq<Seq<u8>>) -> Map<usize, Seq<u8>> {
    Map::new(|i: usize| i < 4, |i: usize| encoding[i as int])
}

/// Both parity fragments of an encoding, each under its index.
pub open spec fn parity_part(encoding: Seq<Seq<u8>>) -> Map<usize, Seq<u8>> {
    Map::new(|j: usize| j < 2, |j: usize| encoding[4 + j])
}

proof fn lemma_part_sizes(encoding: Seq<Seq<u8>>)
    ensures
        data_part(encoding).dom().finite(),
        data_part(encoding).len() == 4,
        parity_part(encoding).dom().finite(),
        parity_part(encoding).len() == 2,
{
    let d = Set::<usize>::empty().insert(0).insert(1).insert(2).insert(3);
    assert(data_part(encoding).dom() =~= d);
    let p = Set::<usize>::empty().insert(0).insert(1);
    assert(parity_part(encoding).dom() =~= p);
}

/// Decoding all six fragments of a record and reading the result back gives
/// the record, with its identifier in canonical form.
pub proof fn lemma_round_trip(id: Seq<u8>, record: EnrichedLocationStatsView)
    requires
        id.len() == 16,
    ensures
        decodable(data_part(encoded(id, record)), parity_part(encoded(id, record))),
        decoded(data_part(encoded(id, record)), parity_part(encoded(id, record))) == fragments(
            record_bytes(id, record),
        ),
        reassembled(decoded(data_part(encoded(id, record)), parity_part(encoded(id, record))))
            == Ok::<_, Seq<char>>(EnrichedLocationStatsView { id: uuid_hyphenated(id), ..record }),
{
    let all = encoded(id, record);
    let d = data_part(all);
    let p = parity_part(all);
    lemma_fragments_reassemble(id, record);
    lemma_part_sizes(all);
    assert(p.contains_key(0));
    assert(decoded(d, p) =~= fragments(record_bytes(id, record)));
}

/// A record whose identifier is the canonical text of a UUID comes back
/// unchanged from encoding, decoding and reassembly.
pub proof fn lemma_canonical_round_trip(id: Seq<u8>, record: EnrichedLocationStatsView)
    requires
        id.len() == 16,
        record.id == uuid_hyphenated(id),
    ensures
        reassembled(decoded(data_part(encoded(id, record)), parity_part(encoded(id, record))))
            == Ok::<_, Seq<char>>(record),
{
    lemma_round_trip(id, record);
}

/// Whichever of the six fragments of a record are kept, each under its index,
/// they come from one encoding: that of the record's data fragments. Four or
/// more of them are therefore decodable, and [`decode`] gives those data
/// fragments back for them.
pub proof fn lemma_kept_fragments_explained(
    id: Seq<u8>,
    record: EnrichedLocationStatsView,
    data: Map<usize, Seq<u8>>,
    parity: Map<usize, Seq<u8>>,
)
    requires
        id.len() == 16,
        data.dom().finite(),
        parity.dom().finite(),
        data.submap_of(data_part(encoded(id, record))),
        parity.submap_of(parity_part(encoded(id, record))),
    ensures
        rs_explains(4, 2, fragments(record_bytes(id, record)), data, parity),
        data.len() + parity.len() >= 4 ==> decodable(data, parity),
{
    let cut = fragments(record_bytes(id, record));
    let all = encoded(id, record);
    lemma_fragments_reassemble(id, record);
    assert forall|i: usize| #[trigger] data.contains_key(i) implies i < 4 && data[i] == cut[i as int] by {
        assert(data_part(all).dom().contains(i));
        assert(all[i as int] == cut[i as int]);
    }
    assert forall|j: usize| #[trigger] parity.contains_key(j) implies {
        &&& j < 2
        &&& parity[j].len() == cut[0].len()
        &&& forall|k: int|
            0 <= k < cut[0].len() ==> #[trigger] parity[j][k] == rs_recovery_byte(4, 2, cut, j as int, k)
    } by {
        assert(parity_part(all).dom().contains(j));
        assert(all[4 + j] == crate::codec::parity(cut)[j as int]);
    }
    if data.len() + parity.len() >= 4 {
        lemma_explained_is_decodable(cut, data, parity);
    }
}

/// Encodes a record into its six fragments: the four data fragments, then
/// the two parity fragments. Fails with an `EncodingError` exactly when
/// the identifier is not the text of a UUID.
pub fn encode(record: &EnrichedLocationStats) -> (r: Result<Vec<Vec<u8>>, ShardError>)
    ensures
        match r {
            Ok(all) => {
                &&& uuid_parsed(record.id@) matches Some(id)
                &&& id.len() == 16
                &&& all.len() == 6
                &&& all.deep_view() == encoded(id, record@)
                &&& reassembled(
                    decoded(data_part(all.deep_view()), parity_part(all.deep_view())),
                ) == Ok::<_, Seq<char>>(
                    EnrichedLocationStatsView { id: uuid_hyphenated(id), ..record@ },
                )
            },
            Err(e) => {
                &&& uuid_parsed(record.id@) is None
                &&& e matches ShardError::EncodingError(m)
                &&& m@ == "Record id is not a UUID"@
            },
        },
{
    let shards = match record.to_shards() {
        Ok(shards) => shards,
        Err(e) => {
            return Err(e);
        },
    };
    let ghost id = uuid_parsed(record.id@)->0;
    let ghost cut = fragments(record_bytes(id, record@));
    proof {
        lemma_fragments_reassemble(id, record@);
    }
    let mut all: Vec<Vec<u8>> = Vec::with_capacity(DATA_SHARDS + PARITY_SHARDS);
    let mut i: usize = 0;
    while i < DATA_SHARDS
        invariant
            i <= 4,
            cut.len() == 4,
            shards.deep_view() == cut,
            all.len() == i,
            forall|j: int| 0 <= j < i ==> all[j]@ == cut[j],
        decreases 4 - i,
    {
        all.push(shards[i].clone());
        assert(shards.deep_view()[i as int] == shards[i as int]@);
        i += 1;
    }
    assert(all.deep_view() =~= cut) by {
        assert forall|j: int| 0 <= j < 4 implies all.deep_view()[j] == cut[j] by {
            assert(all.deep_view()[j] == all[j]@);
        }
    }
    assert(rs_encodable(4, cut));
    let recovery = match rs_encode(DATA_SHARDS, PARITY_SHARDS, &all) {
        Ok(recovery) => recovery,
        Err(_) => {
            return Err(ShardError::EncodingError(String::from_str("Failed to encode shards")));
        },
    };
    let mut j: usize = 0;
    while j < PARITY_SHARDS
        invariant
            j <= 2,
            cut.len() == 4,
            recovery.len() == 2,
            all.len() == 4 + j,
            forall|l: int| 0 <= l < 4 ==> all[l]@ == cut[l],
            forall|l: int| 0 <= l < j ==> all[4 + l]@ == recovery[l]@,
        decreases 2 - j,
    {
        all.push(recovery[j].clone());
        j += 1;
    }
    proof {
        assert(parity(cut).len() == 2);
        assert forall|l: int| 0 <= l < 2 implies recovery[l]@ =~= parity(cut)[l] by {
            assert(recovery[l]@.len() == cut[0].len());
        }
        assert(all.deep_view() =~= encoded(id, record@)) by {
            assert forall|l: int| 0 <= l < 6 implies all.deep_view()[l] == encoded(id, record@)[l] by {
                assert(all.deep_view()[l] == all[l]@);
                if l >= 4 {
                    assert(all[4 + (l - 4)]@ == recovery[l - 4]@);
                }
            }
        }
        lemma_round_trip(id, record@);
    }
    Ok(all)
}

fn keys_below(shards: &HashMap<usize, Vec<u8>>, bound: usize) -> (below: bool)
    ensures
        below <==> forall|i: usize| shards@.contains_key(i) ==> i < bound,
{
    proof {
        broadcast use vstd::std_specs::hash::axiom_spec_keys_iter;
    }
    let ghost keys = shards.keys().remaining();
    let ghost mut checked: int = 0;
    for key in it: shards.keys()
        invariant
            it.seq() == keys,
            keys.unref().to_set() == shards@.dom(),
            checked == it.index(),
            forall|j: int| 0 <= j < checked ==> *(#[trigger] keys[j]) < bound,
    {
        if *key >= bound {
            proof {
                assert(keys.unref()[checked] == *key);
                assert(keys.unref().to_set().contains(*key));
            }
            return false;
        }
        proof {
            checked = checked + 1;
        }
    }
    proof {
        assert(checked == keys.len());
        assert forall|i: usize| shards@.contains_key(i) implies i < bound by {
            assert(keys.unref().to_set().contains(i));
            let k: int = choose|k: int| 0 <= k < keys.unref().len() && keys.unref()[k] == i;
            assert(*keys[k] == i);
        }
    }
    true
}

/// Recovers the four data fragments from the fragments at hand: data fragments
/// under their indexes 0 to 3, parity fragments under 0 and 1. Fails with a
/// `DecodingError` exactly when the fragments are not [`decodable`]; fewer than
/// four never are. Where the fragments come from one encoding, and are four or
/// more, the result is that encoding's data fragments.
pub fn decode(
    available_data: &HashMap<usize, Vec<u8>>,
    available_parity: &HashMap<usize, Vec<u8>>,
) -> (r: Result<[Vec<u8>; 4], ShardError>)
    ensures
        match r {
            Ok(shards) => {
                &&& decodable(shard_bytes(available_data@), shard_bytes(available_parity@))
                &&& shards.deep_view() == decoded(
                    shard_bytes(available_data@),
                    shard_bytes(available_parity@),
                )
            },
            Err(e) => {
                &&& !decodable(shard_bytes(available_data@), shard_bytes(available_parity@))
                &&& e matches ShardError::DecodingError(m)
                &&& m@ == decoding_failure(
                    shard_bytes(available_data@),
                    shard_bytes(available_parity@),
                )
            },
        },
        available_data@.len() + available_parity@.len() < 4 ==> r is Err,
        forall|original: Seq<Seq<u8>>| #[trigger]
            rs_explains(
                4,
                2,
                original,
                shard_bytes(available_data@),
                shard_bytes(available_parity@),
            ) && available_data@.len() + available_parity@.len() >= 4 ==> (r matches Ok(shards)
                && shards.deep_view() == original),
{
    let ghost d = shard_bytes(available_data@);
    let ghost p = shard_bytes(available_parity@);
    proof {
        assert(d.dom() =~= available_data@.dom());
        assert(p.dom() =~= available_parity@.dom());
    }
    let enough = available_data.len() >= DATA_SHARDS || available_parity.len() >= DATA_SHARDS
        || available_data.len() + available_parity.len() >= DATA_SHARDS;
    if !enough {
        proof {
            if decodable(d, p) {
                lemma_decodable_has_four(d, p);
            }
        }
        return Err(ShardError::DecodingError(String::from_str("Not enough shards")));
    }
    proof {
        assert forall|original: Seq<Seq<u8>>| #[trigger]
            rs_explains(4, 2, original, d, p) implies decodable(d, p) by {
            lemma_explained_is_decodable(original, d, p);
        }
    }
    if !keys_below(available_data, DATA_SHARDS) || !keys_below(available_parity, PARITY_SHARDS) {
        return Err(ShardError::DecodingError(String::from_str("Failed to restore shard")));
    }
    let restored = match rs_decode(DATA_SHARDS, PARITY_SHARDS, available_data, available_parity) {
        Ok(restored) => restored,
        Err(_) => {
            return Err(ShardError::DecodingError(String::from_str("Failed to restore shard")));
        },
    };
    let s0 = match data_shard(available_data, &restored, available_parity, 0) {
        Some(shard) => shard,
        None => {
            return Err(ShardError::DecodingError(String::from_str("Failed to restore shard")));
        },
    };
    let s1 = match data_shard(available_data, &restored, available_parity, 1) {
        Some(shard) => shard,
        None => {
            return Err(ShardError::DecodingError(String::from_str("Failed to restore shard")));
        },
    };
    let s2 = match data_shard(available_data, &restored, available_parity, 2) {
        Some(shard) => shard,
        None => {
            return Err(ShardError::DecodingError(String::from_str("Failed to restore shard")));
        },
    };
    let s3 = match data_shard(available_data, &restored, available_parity, 3) {
        Some(shard) => shard,
        None => {
            return Err(ShardError::DecodingError(String::from_str("Failed to restore shard")));
        },
    };
    let shards = [s0, s1, s2, s3];
    proof {
        assert(shards@[0] == s0 && shards@[1] == s1 && shards@[2] == s2 && shards@[3] == s3);
        assert(shards.deep_view()[0] == s0@);
        assert(shards.deep_view()[1] == s1@);
        assert(shards.deep_view()[2] == s2@);
        assert(shards.deep_view()[3] == s3@);
        assert(shards.deep_view() =~= decoded(d, p));
        assert forall|original: Seq<Seq<u8>>| #[trigger]
            rs_explains(4, 2, original, d, p) implies shards.deep_view() == original by {
            assert forall|i: int| 0 <= i < 4 implies shards.deep_view()[i] == original[i] by {
                if d.contains_key(i as usize) {
                } else {
                    assert(restored@.contains_key(i as usize));
                }
            }
            assert(shards.deep_view() =~= original);
        }
    }
    Ok(shards)
}

fn data_shard(
    available_data: &HashMap<usize, Vec<u8>>,
    restored: &HashMap<usize, Vec<u8>>,
    available_parity: &HashMap<usize, Vec<u8>>,
    index: usize,
) -> (found: Option<Vec<u8>>)
    requires
        index < 4,
        forall|i: usize|
            restored@.contains_key(i) <==> i < 4 && !available_data@.contains_key(i),
        forall|i: usize, j: usize|
            restored@.contains_key(i) && available_parity@.contains_key(j) ==> (
            #[trigger] restored@[i])@.len() == (#[trigger] available_parity@[j])@.len(),
        forall|i: usize, k: int|
            restored@.contains_key(i) && 0 <= k < restored@[i]@.len() ==> #[trigger] restored@[i]@[k]
                == rs_restored_byte(
                4,
                2,
                shard_bytes(available_data@),
                shard_bytes(available_parity@),
                i as int,
                k,
            ),
        decodable(shard_bytes(available_data@), shard_bytes(available_parity@)),
    ensures
        found matches Some(shard) && shard@ == decoded(
            shard_bytes(available_data@),
            shard_bytes(available_parity@),
        )[index as int],
        found matches Some(shard) && (if available_data@.contains_key(index) {
            shard@ == available_data@[index]@
        } else {
            restored@.contains_key(index) && shard@ == restored@[index]@
        }),
{
    let ghost d = shard_bytes(available_data@);
    let ghost p = shard_bytes(available_parity@);
    match available_data.get(&index) {
        Some(shard) => Some(shard.clone()),
        None => {
            match restored.get(&index) {
                Some(shard) => {
                    proof {
                        assert(d.dom() =~= available_data@.dom());
                        assert(p.dom() =~= available_parity@.dom());
                        lemma_some_parity(d, p, index);
                        assert(shard@ =~= decoded(d, p)[index as int]);
                    }
                    Some(shard.clone())
                },
                None => None,
            }
        },
    }
}

/// Fewer than four fragments are never decodable.
pub proof fn lemma_decodable_has_four(data: Map<usize, Seq<u8>>, parity: Map<usize, Seq<u8>>)
    requires
        decodable(data, parity),
    ensures
        data.len() + parity.len() >= 4,
{
}

/// Four or more fragments of one encoding are decodable.
pub proof fn lemma_explained_is_decodable(
    original: Seq<Seq<u8>>,
    data: Map<usize, Seq<u8>>,
    parity: Map<usize, Seq<u8>>,
)
    requires
        data.dom().finite(),
        parity.dom().finite(),
        rs_explains(4, 2, original, data, parity),
        data.len() + parity.len() >= 4,
    ensures
        decodable(data, parity),
{
    if parity.len() == 0 {
        let full = Set::<usize>::empty().insert(0).insert(1).insert(2).insert(3);
        assert(data.dom().subset_of(full));
        vstd::set_lib::lemma_len_subset(data.dom(), full);
    }
}

proof fn lemma_some_parity(data: Map<usize, Seq<u8>>, parity: Map<usize, Seq<u8>>, missing: usize)
    requires
        data.dom().finite(),
        parity.dom().finite(),
        decodable(data, parity),
        missing < 4,
        !data.contains_key(missing),
    ensures
        parity.contains_key(0) || parity.contains_key(1),
{
    if parity.len() == 0 {
        let full = Set::<usize>::empty().insert(0).insert(1).insert(2).insert(3);
        assert(data.dom().subset_of(full.remove(missing)));
        vstd::set_lib::lemma_len_subset(data.dom(), full.remove(missing));
    } else {
        assert(!(parity.dom() =~= Set::<usize>::empty()));
        let j = choose|j: usize| parity.dom().contains(j);
        assert(parity.contains_key(j));
    }
}

} // verus!
