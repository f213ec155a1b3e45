//! Records, the errors of the data plane, and the 48-byte layout of a record
//! that is cut into four fragments.

use crate::outside::{format_uuid, parse_uuid, uuid_hyphenated, uuid_parsed};
use crate::text::{decimal, decimal_string};
use vstd::bytes::{
    lemma_auto_spec_u64_to_from_le_bytes, spec_u64_from_le_bytes, spec_u64_to_le_bytes,
    u64_from_le_bytes, u64_to_le_bytes,
};
use vstd::prelude::*;
use vstd::slice::slice_subrange;
use vstd::string::StringExecFns;

verus! {

/// Bytes of the record's identifier.
pub const ID_SIZE: usize = 16;

/// Bytes of a whole record: the identifier and four fields of eight bytes.
pub const TOTAL_SIZE: usize = ID_SIZE + 8 + 8 + 8 + 8;

/// Bytes of each of the four fragments of a record.
pub const SHARD_SIZE: usize = TOTAL_SIZE / 4;

/// A reading as a client sends it. The three measurements are IEEE-754
/// double-precision numbers, held as their 64 bits.
pub struct LocationStats {
    pub id: String,
    pub seismic_activity: u64,
    pub temperature_c: u64,
    pub radiation_level: u64,
}

/// What a [`LocationStats`] holds.
pub struct LocationStatsView {
    pub id: Seq<char>,
    pub seismic_activity: u64,
    pub temperature_c: u64,
    pub radiation_level: u64,
}

impl View for LocationStats {
    type V = LocationStatsView;

    open spec fn view(&self) -> LocationStatsView {
        LocationStatsView {
            id: self.id@,
            seismic_activity: self.seismic_activity,
            temperature_c: self.temperature_c,
            radiation_level: self.radiation_level,
        }
    }
}

impl Clone for LocationStats {
    fn clone(&self) -> (copy: Self)
        ensures
            copy == *self,
    {
        LocationStats {
            id: self.id.clone(),
            seismic_activity: self.seismic_activity,
            temperature_c: self.temperature_c,
            radiation_level: self.radiation_level,
        }
    }
}

/// What went wrong, with a message for the log.
#[derive(Debug)]
pub enum ShardError {
    EncodingError(String),
    DecodingError(String),
    InvalidShard(String),
    RpcError(String),
    ChannelError(String),
    ActorError(String),
    NotFoundError(String),
}

impl ShardError {
    /// The message that the error carries.
    pub open spec fn detail(self) -> Seq<char> {
        match self {
            ShardError::EncodingError(m) => m@,
            ShardError::DecodingError(m) => m@,
            ShardError::InvalidShard(m) => m@,
            ShardError::RpcError(m) => m@,
            ShardError::ChannelError(m) => m@,
            ShardError::ActorError(m) => m@,
            ShardError::NotFoundError(m) => m@,
        }
    }

    /// The words that introduce each kind of error in its text.
    pub open spec fn heading(self) -> Seq<char> {
        match self {
            ShardError::EncodingError(_) => "Encoding error: "@,
            ShardError::DecodingError(_) => "Decoding error: "@,
            ShardError::InvalidShard(_) => "Invalid shard: "@,
            ShardError::RpcError(_) => "Rpc Error: "@,
            ShardError::ChannelError(_) => "Channel Error: "@,
            ShardError::ActorError(_) => "Actor Error: "@,
            ShardError::NotFoundError(_) => "Shard Not found Error: "@,
        }
    }

    /// The text of the error: its heading, then its message.
    pub fn to_string(&self) -> (text: String)
        ensures
            text@ == self.heading() + self.detail(),
    {
        match self {
            ShardError::EncodingError(m) => String::from_str("Encoding error: ").concat(m.as_str()),
            ShardError::DecodingError(m) => String::from_str("Decoding error: ").concat(m.as_str()),
            ShardError::InvalidShard(m) => String::from_str("Invalid shard: ").concat(m.as_str()),
            ShardError::RpcError(m) => String::from_str("Rpc Error: ").concat(m.as_str()),
            ShardError::ChannelError(m) => String::from_str("Channel Error: ").concat(m.as_str()),
            ShardError::ActorError(m) => String::from_str("Actor Error: ").concat(m.as_str()),
            ShardError::NotFoundError(m) => String::from_str("Shard Not found Error: ").concat(
                m.as_str(),
            ),
        }
    }
}

/// The record that the owner keeps: a reading and the number of writes that
/// its location has seen.
pub struct EnrichedLocationStats {
    pub id: String,
    pub modification_count: i64,
    pub seismic_activity: u64,
    pub temperature_c: u64,
    pub radiation_level: u64,
}

/// What an [`EnrichedLocationStats`] holds.
pub struct EnrichedLocationStatsView {
    pub id: Seq<char>,
    pub modification_count: i64,
    pub seismic_activity: u64,
    pub temperature_c: u64,
    pub radiation_level: u64,
}

impl View for EnrichedLocationStats {
    type V = EnrichedLocationStatsView;

    open spec fn view(&self) -> EnrichedLocationStatsView {
        EnrichedLocationStatsView {
            id: self.id@,
            modification_count: self.modification_count,
            seismic_activity: self.seismic_activity,
            temperature_c: self.temperature_c,
            radiation_level: self.radiation_level,
        }
    }
}

impl Clone for EnrichedLocationStats {
    fn clone(&self) -> (copy: Self)
        ensures
            copy == *self,
    {
        EnrichedLocationStats {
            id: self.id.clone(),
            modification_count: self.modification_count,
            seismic_activity: self.seismic_activity,
            temperature_c: self.temperature_c,
            radiation_level: self.radiation_level,
        }
    }
}

/// A reading with the count of writes put beside it.
pub open spec fn enriched(modification_count: i64, stats: LocationStatsView) -> EnrichedLocationStatsView {
    EnrichedLocationStatsView {
        id: stats.id,
        modification_count,
        seismic_activity: stats.seismic_activity,
        temperature_c: stats.temperature_c,
        radiation_level: stats.radiation_level,
    }
}

/// The 48 bytes of a record whose identifier has the bytes `id`: the
/// identifier, then the count and the three measurements, each as eight bytes
/// with the lowest first.
pub open spec fn record_bytes(id: Seq<u8>, record: EnrichedLocationStatsView) -> Seq<u8> {
    id + spec_u64_to_le_bytes(record.modification_count as u64) + spec_u64_to_le_bytes(
        record.seismic_activity,
    ) + spec_u64_to_le_bytes(record.temperature_c) + spec_u64_to_le_bytes(record.radiation_level)
}

/// Fragment `index` of a buffer: its bytes from `12 * index` on.
pub open spec fn fragment(buffer: Seq<u8>, index: int) -> Seq<u8> {
    buffer.subrange(index * 12, index * 12 + 12)
}

/// A buffer cut into its four fragments.
pub open spec fn fragments(buffer: Seq<u8>) -> Seq<Seq<u8>> {
    seq![fragment(buffer, 0), fragment(buffer, 1), fragment(buffer, 2), fragment(buffer, 3)]
}

/// The record that 48 bytes spell out. The identifier comes back in its
/// canonical hyphenated form.
pub open spec fn record_of(buffer: Seq<u8>) -> EnrichedLocationStatsView {
    EnrichedLocationStatsView {
        id: uuid_hyphenated(buffer.subrange(0, 16)),
        modification_count: spec_u64_from_le_bytes(buffer.subrange(16, 24)) as i64,
        seismic_activity: spec_u64_from_le_bytes(buffer.subrange(24, 32)),
        temperature_c: spec_u64_from_le_bytes(buffer.subrange(32, 40)),
        radiation_level: spec_u64_from_le_bytes(buffer.subrange(40, 48)),
    }
}

/// Position of the first of four fragments whose length is not 12, or 4 where
/// all of them fit.
pub open spec fn first_misfit(shards: Seq<Seq<u8>>) -> int {
    if shards[0].len() != 12 {
        0
    } else if shards[1].len() != 12 {
        1
    } else if shards[2].len() != 12 {
        2
    } else if shards[3].len() != 12 {
        3
    } else {
        4
    }
}

/// The message for a fragment of the wrong length.
pub open spec fn misfit_message(index: int, length: nat) -> Seq<char> {
    "Shard "@ + decimal(index as nat) + " has incorrect size: "@ + decimal(length) + " (expected "@
        + decimal(12) + ")"@
}

/// What reading four fragments back gives: the record they spell out, or the
/// message for the first fragment of the wrong length.
pub open spec fn reassembled(shards: Seq<Seq<u8>>) -> Result<EnrichedLocationStatsView, Seq<char>> {
    let misfit = first_misfit(shards);
    if misfit < 4 {
        Err(misfit_message(misfit, shards[misfit].len()))
    } else {
        Ok(record_of(shards[0] + shards[1] + shards[2] + shards[3]))
    }
}

/// Cutting a record into fragments and reading them back gives the record,
/// with its identifier in canonical form.
pub proof fn lemma_fragments_reassemble(id: Seq<u8>, record: EnrichedLocationStatsView)
    requires
        id.len() == 16,
    ensures
        record_bytes(id, record).len() == 48,
        reassembled(fragments(record_bytes(id, record))) == Ok::<_, Seq<char>>(
            EnrichedLocationStatsView { id: uuid_hyphenated(id), ..record },
        ),
{
    lemma_auto_spec_u64_to_from_le_bytes();
    let buffer = record_bytes(id, record);
    let parts = fragments(buffer);
    assert(buffer.len() == 48);
    assert(parts[0] + parts[1] + parts[2] + parts[3] =~= buffer);
    assert(buffer.subrange(0, 16) =~= id);
    assert(buffer.subrange(16, 24) =~= spec_u64_to_le_bytes(record.modification_count as u64));
    assert(buffer.subrange(24, 32) =~= spec_u64_to_le_bytes(record.seismic_activity));
    assert(buffer.subrange(32, 40) =~= spec_u64_to_le_bytes(record.temperature_c));
    assert(buffer.subrange(40, 48) =~= spec_u64_to_le_bytes(record.radiation_level));
    let count = record.modification_count;
    assert(((count as u64) as i64) == count) by (bit_vector);
}

/// Reading four fragments of 12 bytes back and cutting the record again gives
/// the same four fragments: no two records share a set of fragments.
pub proof fn lemma_reassembled_cuts_back(shards: Seq<Seq<u8>>)
    requires
        shards.len() == 4,
        first_misfit(shards) == 4,
    ensures
        reassembled(shards) == Ok::<_, Seq<char>>(record_of(shards[0] + shards[1] + shards[2] + shards[3])),
        fragments(
            record_bytes(
                (shards[0] + shards[1]).subrange(0, 16),
                record_of(shards[0] + shards[1] + shards[2] + shards[3]),
            ),
        ) == shards,
{
    lemma_auto_spec_u64_to_from_le_bytes();
    let buffer = shards[0] + shards[1] + shards[2] + shards[3];
    let record = record_of(buffer);
    let id = (shards[0] + shards[1]).subrange(0, 16);
    assert(id =~= buffer.subrange(0, 16));
    let count = spec_u64_from_le_bytes(buffer.subrange(16, 24));
    assert(((count as i64) as u64) == count) by (bit_vector);
    assert(spec_u64_to_le_bytes(record.modification_count as u64) == buffer.subrange(16, 24));
    assert(spec_u64_to_le_bytes(record.seismic_activity) == buffer.subrange(24, 32));
    assert(spec_u64_to_le_bytes(record.temperature_c) == buffer.subrange(32, 40));
    assert(spec_u64_to_le_bytes(record.radiation_level) == buffer.subrange(40, 48));
    assert(record_bytes(id, record) =~= buffer);
    let cut = fragments(buffer);
    assert(cut[0] =~= shards[0]);
    assert(cut[1] =~= shards[1]);
    assert(cut[2] =~= shards[2]);
    assert(cut[3] =~= shards[3]);
    assert(cut =~= shards);
}

/// Lays a record out in 48 bytes and cuts them into four fragments of 12.
/// `id` holds the 16 bytes of the record's identifier.
pub fn record_shards(id: &[u8; 16], record: &EnrichedLocationStats) -> (shards: [Vec<u8>; 4])
    ensures
        shards.deep_view() == fragments(record_bytes(id@, record@)),
{
    let mut buffer: Vec<u8> = Vec::with_capacity(TOTAL_SIZE);
    let mut i: usize = 0;
    while i < ID_SIZE
        invariant
            i <= 16,
            buffer@ == id@.subrange(0, i as int),
        decreases 16 - i,
    {
        buffer.push(id[i]);
        i += 1;
        assert(buffer@ =~= id@.subrange(0, i as int));
    }
    assert(buffer@ =~= id@);
    let mut count_bytes = u64_to_le_bytes(#[verifier::truncate] (record.modification_count as u64));
    let mut seismic_bytes = u64_to_le_bytes(record.seismic_activity);
    let mut temperature_bytes = u64_to_le_bytes(record.temperature_c);
    let mut radiation_bytes = u64_to_le_bytes(record.radiation_level);
    buffer.append(&mut count_bytes);
    buffer.append(&mut seismic_bytes);
    buffer.append(&mut temperature_bytes);
    buffer.append(&mut radiation_bytes);
    assert(buffer@ =~= record_bytes(id@, record@));
    let s0 = slice_to_shard(&buffer, 0);
    let s1 = slice_to_shard(&buffer, 1);
    let s2 = slice_to_shard(&buffer, 2);
    let s3 = slice_to_shard(&buffer, 3);
    let shards = [s0, s1, s2, s3];
    assert(shards@.len() == 4);
    assert(shards@[0] == s0);
    assert(shards@[1] == s1);
    assert(shards@[2] == s2);
    assert(shards@[3] == s3);
    assert(shards.deep_view().len() == 4);
    assert(shards.deep_view()[0] == s0@);
    assert(shards.deep_view()[1] == s1@);
    assert(shards.deep_view()[2] == s2@);
    assert(shards.deep_view()[3] == s3@);
    assert(shards.deep_view() =~= fragments(record_bytes(id@, record@)));
    shards
}

fn slice_to_shard(buffer: &Vec<u8>, index: usize) -> (shard: Vec<u8>)
    requires
        buffer@.len() == 48,
        index < 4,
    ensures
        shard@ == fragment(buffer@, index as int),
{
    assert(index * SHARD_SIZE == index * 12 && index * 12 <= 36) by (nonlinear_arith)
        requires
            index < 4,
            SHARD_SIZE == 12,
    ;
    let start: usize = index * SHARD_SIZE;
    let mut shard: Vec<u8> = Vec::with_capacity(SHARD_SIZE);
    let mut k: usize = 0;
    while k < SHARD_SIZE
        invariant
            k <= 12,
            start == index * 12,
            index < 4,
            buffer@.len() == 48,
            shard@ == buffer@.subrange(start as int, start + k),
        decreases 12 - k,
    {
        shard.push(buffer[start + k]);
        k += 1;
        assert(shard@ =~= buffer@.subrange(start as int, start + k));
    }
    shard
}

impl EnrichedLocationStats {
    /// Puts a record together from its parts.
    pub fn new(
        id: String,
        modification_count: i64,
        seismic_activity: u64,
        temperature_c: u64,
        radiation_level: u64,
    ) -> (r: Result<Self, ShardError>)
        ensures
            r matches Ok(record) && record == (EnrichedLocationStats {
                id,
                modification_count,
                seismic_activity,
                temperature_c,
                radiation_level,
            }),
    {
        Ok(Self { id, modification_count, seismic_activity, temperature_c, radiation_level })
    }

    /// Puts the count of writes beside a reading.
    pub fn from(modification_count: i64, stats: LocationStats) -> (record: EnrichedLocationStats)
        ensures
            record@ == enriched(modification_count, stats@),
    {
        EnrichedLocationStats {
            modification_count,
            id: stats.id,
            seismic_activity: stats.seismic_activity,
            temperature_c: stats.temperature_c,
            radiation_level: stats.radiation_level,
        }
    }

    /// Encodes the record into four fragments of 12 bytes each. Fails with an
    /// `EncodingError` exactly when the identifier is not the text of a UUID.
    pub fn to_shards(&self) -> (r: Result<[Vec<u8>; 4], ShardError>)
        ensures
            match r {
                Ok(shards) => {
                    &&& uuid_parsed(self.id@) matches Some(id)
                    &&& id.len() == 16
                    &&& shards.deep_view() == fragments(record_bytes(id, self@))
                },
                Err(e) => {
                    &&& uuid_parsed(self.id@) is None
                    &&& e matches ShardError::EncodingError(m)
                    &&& m@ == "Record id is not a UUID"@
                },
            },
    {
        match parse_uuid(self.id.as_str()) {
            Some(id) => Ok(record_shards(&id, self)),
            None => Err(ShardError::EncodingError(String::from_str("Record id is not a UUID"))),
        }
    }

    /// Reads a record back from its four fragments. Fails with `InvalidShard`
    /// exactly when a fragment is not 12 bytes long; the message names the
    /// first such fragment. The identifier of the record is the text of the
    /// first 16 bytes, so that [`Self::to_shards`] gives the same fragments
    /// back.
    pub fn from_shards(shards: [Vec<u8>; 4]) -> (r: Result<Self, ShardError>)
        ensures
            match r {
                Ok(record) => {
                    &&& reassembled(shards.deep_view()) == Ok::<_, Seq<char>>(record@)
                    &&& uuid_parsed(record.id@) == Some(
                        (shards.deep_view()[0] + shards.deep_view()[1]).subrange(0, 16),
                    )
                    &&& fragments(
                        record_bytes(
                            (shards.deep_view()[0] + shards.deep_view()[1]).subrange(0, 16),
                            record@,
                        ),
                    ) == shards.deep_view()
                },
                Err(e) => {
                    &&& e matches ShardError::InvalidShard(m)
                    &&& reassembled(shards.deep_view()) == Err::<EnrichedLocationStatsView, _>(m@)
                },
            },
    {
        let mut i: usize = 0;
        while i < 4
            invariant
                i <= 4,
                forall|j: int| 0 <= j < i ==> shards[j]@.len() == 12,
            decreases 4 - i,
        {
            if shards[i].len() != SHARD_SIZE {
                let mut message = String::from_str("Shard ");
                message.append(decimal_string(i).as_str());
                message.append(" has incorrect size: ");
                message.append(decimal_string(shards[i].len()).as_str());
                message.append(" (expected ");
                message.append(decimal_string(SHARD_SIZE).as_str());
                message.append(")");
                assert(first_misfit(shards.deep_view()) == i);
                assert(message@ =~= misfit_message(i as int, shards[i as int]@.len()));
                return Err(ShardError::InvalidShard(message));
            }
            i += 1;
        }
        assert(first_misfit(shards.deep_view()) == 4);
        let mut buffer: Vec<u8> = Vec::with_capacity(TOTAL_SIZE);
        let mut n: usize = 0;
        while n < 4
            invariant
                n <= 4,
                forall|j: int| 0 <= j < 4 ==> shards[j]@.len() == 12,
                buffer@.len() == 12 * n,
                forall|j: int, k: int|
                    0 <= j < n && 0 <= k < 12 ==> buffer@[12 * j + k] == shards[j]@[k],
            decreases 4 - n,
        {
            let mut k: usize = 0;
            while k < SHARD_SIZE
                invariant
                    k <= 12,
                    n < 4,
                    shards[n as int]@.len() == 12,
                    buffer@.len() == 12 * n + k,
                    forall|j: int, l: int|
                        0 <= j < n && 0 <= l < 12 ==> buffer@[12 * j + l] == shards[j]@[l],
                    forall|l: int| 0 <= l < k ==> buffer@[12 * n + l] == shards[n as int]@[l],
                decreases 12 - k,
            {
                buffer.push(shards[n][k]);
                k += 1;
            }
            n += 1;
        }
        let ghost joined = shards[0]@ + shards[1]@ + shards[2]@ + shards[3]@;
        assert(buffer@ =~= joined) by {
            assert forall|p: int| 0 <= p < 48 implies buffer@[p] == joined[p] by {
                let j: int = p / 12;
                let k: int = p % 12;
                assert(buffer@[12 * j + k] == shards[j]@[k]);
            }
        }
        assert(joined == shards.deep_view()[0] + shards.deep_view()[1] + shards.deep_view()[2]
            + shards.deep_view()[3]);
        assert(buffer@.subrange(0, 16) =~= (shards.deep_view()[0] + shards.deep_view()[1]).subrange(
            0,
            16,
        ));
        proof {
            lemma_reassembled_cuts_back(shards.deep_view());
        }
        let id = match format_uuid(slice_subrange(buffer.as_slice(), 0, ID_SIZE)) {
            Some(text) => text,
            None => {
                return Err(ShardError::DecodingError(String::from_str("Failed to decode id")));
            },
        };
        let modification_count = #[verifier::truncate] (u64_from_le_bytes(
            slice_subrange(buffer.as_slice(), ID_SIZE, ID_SIZE + 8),
        ) as i64);
        let seismic_activity = u64_from_le_bytes(
            slice_subrange(buffer.as_slice(), ID_SIZE + 8, ID_SIZE + 16),
        );
        let temperature_c = u64_from_le_bytes(
            slice_subrange(buffer.as_slice(), ID_SIZE + 16, ID_SIZE + 24),
        );
        let radiation_level = u64_from_le_bytes(
            slice_subrange(buffer.as_slice(), ID_SIZE + 24, ID_SIZE + 32),
        );
        Ok(Self { id, modification_count, seismic_activity, temperature_c, radiation_level })
    }
}

} // verus!
