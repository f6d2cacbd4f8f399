use vstd::bytes::{
    spec_u64_from_le_bytes, spec_u64_to_le_bytes, u64_from_le_bytes, u64_to_le_bytes,
};
use crate::types::tags::Tags;
use vstd::prelude::*;

verus! {

/// The series a sample belongs to, named by metric and tags.
#[derive(Debug, Clone)]
pub struct SeriesKey {
    pub metric: String,
    pub tags: Tags,
}

/// A reading together with the series it belongs to.
#[derive(Debug, Clone)]
pub struct Sample {
    pub key: SeriesKey,
    pub reading: SampleReading,
}

/// One reading of a series: a timestamp and a value.
///
/// The value is a 64-bit float, held here by its IEEE-754 bit pattern
/// (`f64::to_bits`), so that every reading can be encoded and compared exactly.
#[derive(Debug, Clone, Copy, PartialEq, Eq, Structural)]
pub struct SampleReading {
    pub timestamp: i64,
    pub value_bits: u64,
}

/// The little-endian encoding of a reading: the timestamp's two's-complement
/// bytes, then the value's bit pattern.
pub open spec fn reading_bytes(r: SampleReading) -> Seq<u8> {
    spec_u64_to_le_bytes(r.timestamp as u64) + spec_u64_to_le_bytes(r.value_bits)
}

/// The reading that sixteen bytes decode to.
pub open spec fn reading_from_bytes(b: Seq<u8>) -> SampleReading
    recommends
        b.len() == 16,
{
    SampleReading {
        timestamp: spec_u64_from_le_bytes(b.subrange(0, 8)) as i64,
        value_bits: spec_u64_from_le_bytes(b.subrange(8, 16)),
    }
}

/// Encoding a reading and decoding the bytes gives the reading back.
pub proof fn lemma_reading_roundtrip(r: SampleReading)
    ensures
        reading_bytes(r).len() == 16,
        reading_from_bytes(reading_bytes(r)) == r,
{
    vstd::bytes::lemma_auto_spec_u64_to_from_le_bytes();
    let b = reading_bytes(r);
    assert(b.subrange(0, 8) =~= spec_u64_to_le_bytes(r.timestamp as u64));
    assert(b.subrange(8, 16) =~= spec_u64_to_le_bytes(r.value_bits));
    let t = r.timestamp;
    assert((t as u64) as i64 == t) by (bit_vector);
}

/// Decoding sixteen bytes and encoding the reading gives the bytes back: every
/// sixteen bytes are the encoding of exactly one reading.
pub proof fn lemma_bytes_roundtrip(b: Seq<u8>)
    requires
        b.len() == 16,
    ensures
        reading_bytes(reading_from_bytes(b)) == b,
{
    vstd::bytes::lemma_auto_spec_u64_to_from_le_bytes();
    let lo = b.subrange(0, 8);
    let hi = b.subrange(8, 16);
    let x = spec_u64_from_le_bytes(lo);
    assert((x as i64) as u64 == x) by (bit_vector);
    assert(spec_u64_to_le_bytes(spec_u64_from_le_bytes(lo)) == lo);
    assert(spec_u64_to_le_bytes(spec_u64_from_le_bytes(hi)) == hi);
    assert(reading_bytes(reading_from_bytes(b)) =~= lo + hi);
    assert(lo + hi =~= b);
}

/// The layout of a reading's encoding: the first eight bytes are the
/// little-endian bytes of the timestamp (as its two's-complement `u64`), the
/// last eight those of the value's bit pattern.
pub proof fn law_reading_layout(r: SampleReading)
    ensures
        reading_bytes(r).len() == 16,
        reading_bytes(r).subrange(0, 8) == spec_u64_to_le_bytes(r.timestamp as u64),
        reading_bytes(r).subrange(8, 16) == spec_u64_to_le_bytes(r.value_bits),
{
    vstd::bytes::lemma_auto_spec_u64_to_from_le_bytes();
    let t = spec_u64_to_le_bytes(r.timestamp as u64);
    let v = spec_u64_to_le_bytes(r.value_bits);
    assert((t + v).subrange(0, 8) =~= t);
    assert((t + v).subrange(8, 16) =~= v);
}

/// Decoding reads the timestamp from the first eight bytes and the value's bit
/// pattern from the last eight, each little-endian.
pub proof fn law_reading_decode(b: Seq<u8>)
    requires
        b.len() == 16,
    ensures
        reading_from_bytes(b).timestamp == spec_u64_from_le_bytes(b.subrange(0, 8)) as i64,
        reading_from_bytes(b).value_bits == spec_u64_from_le_bytes(b.subrange(8, 16)),
{
}

impl SampleReading {
    /// Writes the reading's little-endian encoding into `buf`.
    pub fn write_le_bytes(&self, buf: &mut [u8; 16])
        ensures
            final(buf)@ == reading_bytes(*self),
            final(buf)@.len() == 16,
            final(buf)@.subrange(0, 8) == spec_u64_to_le_bytes(self.timestamp as u64),
            final(buf)@.subrange(8, 16) == spec_u64_to_le_bytes(self.value_bits),
    {
        let t = u64_to_le_bytes(self.timestamp as u64);
        let v = u64_to_le_bytes(self.value_bits);
        let mut i: usize = 0;
        while i < 8
            invariant
                0 <= i <= 8,
                t@ == spec_u64_to_le_bytes(self.timestamp as u64),
                v@ == spec_u64_to_le_bytes(self.value_bits),
                t@.len() == 8,
                v@.len() == 8,
                buf@.len() == 16,
                forall|j: int| 0 <= j < i ==> buf@[j] == t@[j],
                forall|j: int| 0 <= j < i ==> buf@[j + 8] == v@[j],
            decreases 8 - i,
        {
            buf[i] = t[i];
            buf[i + 8] = v[i];
            i = i + 1;
        }
        assert(buf@ =~= reading_bytes(*self));
    }

    /// Decodes a reading from its little-endian encoding.
    pub fn from_le_bytes(buf: &[u8; 16]) -> (r: Self)
        ensures
            r == reading_from_bytes(buf@),
            r.timestamp == spec_u64_from_le_bytes(buf@.subrange(0, 8)) as i64,
            r.value_bits == spec_u64_from_le_bytes(buf@.subrange(8, 16)),
    {
        let t: Vec<u8> = vec![buf[0], buf[1], buf[2], buf[3], buf[4], buf[5], buf[6], buf[7]];
        let v: Vec<u8> = vec![buf[8], buf[9], buf[10], buf[11], buf[12], buf[13], buf[14], buf[15]];
        assert(t@ =~= buf@.subrange(0, 8));
        assert(v@ =~= buf@.subrange(8, 16));
        let ts = u64_from_le_bytes(t.as_slice());
        let vb = u64_from_le_bytes(v.as_slice());
        SampleReading { timestamp: ts as i64, value_bits: vb }
    }
}

} // verus!
