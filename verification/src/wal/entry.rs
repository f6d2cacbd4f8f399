use crate::types::sample::{
    lemma_bytes_roundtrip, lemma_reading_roundtrip, reading_bytes, reading_from_bytes,
    SampleReading,
};
use vstd::bytes::{
    spec_u64_from_le_bytes, spec_u64_to_le_bytes, u64_from_le_bytes, u64_to_le_bytes,
};
use vstd::prelude::*;

verus! {

/// The bytes of one log entry: the series id in little-endian order, then the
/// reading's encoding.
pub open spec fn entry_bytes(series_id: u64, r: SampleReading) -> Seq<u8> {
    spec_u64_to_le_bytes(series_id) + reading_bytes(r)
}

/// The series id and reading that twenty-four bytes decode to.
pub open spec fn entry_from_bytes(b: Seq<u8>) -> (u64, SampleReading)
    recommends
        b.len() == 24,
{
    (spec_u64_from_le_bytes(b.subrange(0, 8)), reading_from_bytes(b.subrange(8, 24)))
}

/// Encoding an entry and decoding the bytes gives the entry back.
pub proof fn lemma_entry_roundtrip(series_id: u64, r: SampleReading)
    ensures
        entry_bytes(series_id, r).len() == 24,
        entry_from_bytes(entry_bytes(series_id, r)) == (series_id, r),
{
    vstd::bytes::lemma_auto_spec_u64_to_from_le_bytes();
    lemma_reading_roundtrip(r);
    let b = entry_bytes(series_id, r);
    assert(b.subrange(0, 8) =~= spec_u64_to_le_bytes(series_id));
    assert(b.subrange(8, 24) =~= reading_bytes(r));
}

/// Decoding twenty-four bytes and encoding the entry gives the bytes back.
pub proof fn lemma_entry_bytes_roundtrip(b: Seq<u8>)
    requires
        b.len() == 24,
    ensures
        entry_bytes(entry_from_bytes(b).0, entry_from_bytes(b).1) == b,
{
    vstd::bytes::lemma_auto_spec_u64_to_from_le_bytes();
    let lo = b.subrange(0, 8);
    let hi = b.subrange(8, 24);
    lemma_bytes_roundtrip(hi);
    assert(spec_u64_to_le_bytes(spec_u64_from_le_bytes(lo)) == lo);
    assert(lo + hi =~= b);
}

/// The layout of an entry: the little-endian bytes of the series id, then of
/// the timestamp (as its two's-complement `u64`), then of the value's bit pattern.
pub proof fn law_entry_layout(series_id: u64, r: SampleReading)
    ensures
        entry_bytes(series_id, r).len() == 24,
        entry_bytes(series_id, r).subrange(0, 8) == spec_u64_to_le_bytes(series_id),
        entry_bytes(series_id, r).subrange(8, 16) == spec_u64_to_le_bytes(r.timestamp as u64),
        entry_bytes(series_id, r).subrange(16, 24) == spec_u64_to_le_bytes(r.value_bits),
{
    vstd::bytes::lemma_auto_spec_u64_to_from_le_bytes();
    crate::types::sample::law_reading_layout(r);
    let e = entry_bytes(series_id, r);
    let rb = reading_bytes(r);
    assert(e.subrange(0, 8) =~= spec_u64_to_le_bytes(series_id));
    assert(e.subrange(8, 16) =~= rb.subrange(0, 8));
    assert(e.subrange(16, 24) =~= rb.subrange(8, 16));
}

/// Decoding an entry reads the series id, the timestamp and the value's bit
/// pattern from bytes 0..8, 8..16 and 16..24, each little-endian.
pub proof fn law_entry_decode(b: Seq<u8>)
    requires
        b.len() == 24,
    ensures
        entry_from_bytes(b).0 == spec_u64_from_le_bytes(b.subrange(0, 8)),
        entry_from_bytes(b).1.timestamp == spec_u64_from_le_bytes(b.subrange(8, 16)) as i64,
        entry_from_bytes(b).1.value_bits == spec_u64_from_le_bytes(b.subrange(16, 24)),
{
    let r = b.subrange(8, 24);
    assert(r.subrange(0, 8) =~= b.subrange(8, 16));
    assert(r.subrange(8, 16) =~= b.subrange(16, 24));
}

/// The log entry for a reading of `series_id`.
pub fn encode_entry(series_id: u64, reading: &SampleReading) -> (buf: [u8; 24])
    ensures
        buf@ == entry_bytes(series_id, *reading),
        buf@.len() == 24,
        buf@.subrange(0, 8) == spec_u64_to_le_bytes(series_id),
        buf@.subrange(8, 16) == spec_u64_to_le_bytes(reading.timestamp as u64),
        buf@.subrange(16, 24) == spec_u64_to_le_bytes(reading.value_bits),
{
    let mut buf = [0u8; 24];
    let id = u64_to_le_bytes(series_id);
    let mut reading_buf = [0u8; 16];
    reading.write_le_bytes(&mut reading_buf);
    let mut i: usize = 0;
    while i < 8
        invariant
            0 <= i <= 8,
            id@ == spec_u64_to_le_bytes(series_id),
            id@.len() == 8,
            buf@.len() == 24,
            forall|j: int| 0 <= j < i ==> buf@[j] == id@[j],
        decreases 8 - i,
    {
        buf[i] = id[i];
        i = i + 1;
    }
    let mut j: usize = 0;
    while j < 16
        invariant
            0 <= j <= 16,
            id@ == spec_u64_to_le_bytes(series_id),
            id@.len() == 8,
            reading_buf@ == reading_bytes(*reading),
            reading_buf@.len() == 16,
            buf@.len() == 24,
            forall|k: int| 0 <= k < 8 ==> buf@[k] == id@[k],
            forall|k: int| 0 <= k < j ==> buf@[k + 8] == reading_buf@[k],
        decreases 16 - j,
    {
        buf[j + 8] = reading_buf[j];
        j = j + 1;
    }
    assert(buf@ =~= entry_bytes(series_id, *reading));
    proof {
        law_entry_layout(series_id, *reading);
    }
    buf
}

/// The series id and reading of one log entry.
pub fn decode_entry(buf: &[u8; 24]) -> (entry: (u64, SampleReading))
    ensures
        entry == entry_from_bytes(buf@),
        entry.0 == spec_u64_from_le_bytes(buf@.subrange(0, 8)),
        entry.1.timestamp == spec_u64_from_le_bytes(buf@.subrange(8, 16)) as i64,
        entry.1.value_bits == spec_u64_from_le_bytes(buf@.subrange(16, 24)),
{
    let id_bytes: Vec<u8> = vec![buf[0], buf[1], buf[2], buf[3], buf[4], buf[5], buf[6], buf[7]];
    let mut reading_buf = [0u8; 16];
    let mut j: usize = 0;
    while j < 16
        invariant
            0 <= j <= 16,
            buf@.len() == 24,
            reading_buf@.len() == 16,
            forall|k: int| 0 <= k < j ==> reading_buf@[k] == buf@[k + 8],
        decreases 16 - j,
    {
        reading_buf[j] = buf[j + 8];
        j = j + 1;
    }
    assert(id_bytes@ =~= buf@.subrange(0, 8));
    assert(reading_buf@ =~= buf@.subrange(8, 24));
    let series_id = u64_from_le_bytes(id_bytes.as_slice());
    let reading = SampleReading::from_le_bytes(&reading_buf);
    proof {
        law_entry_decode(buf@);
    }
    (series_id, reading)
}

} // verus!
