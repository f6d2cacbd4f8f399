use crate::types::sample::SampleReading;
use crate::wal::entry::{
    decode_entry, encode_entry, entry_bytes, entry_from_bytes, law_entry_decode, law_entry_layout,
    lemma_entry_roundtrip,
};
use vstd::bytes::{spec_u64_from_le_bytes, spec_u64_to_le_bytes};
use vstd::prelude::*;

verus! {

/// The entries a log holds: one per complete twenty-four bytes, in order; bytes
/// after the last complete entry (a write cut short) are not an entry.
pub open spec fn log_entries(bytes: Seq<u8>) -> Seq<(u64, SampleReading)> {
    Seq::new(
        (bytes.len() / 24) as nat,
        |i: int| entry_from_bytes(bytes.subrange(24 * i, 24 * i + 24)),
    )
}

/// The bytes of a sequence of entries written one after another.
pub open spec fn log_bytes(entries: Seq<(u64, SampleReading)>) -> Seq<u8>
    decreases entries.len(),
{
    if entries.len() == 0 {
        Seq::empty()
    } else {
        log_bytes(entries.drop_last()) + entry_bytes(entries.last().0, entries.last().1)
    }
}

/// The log bytes of `entries`, written one after another.
pub fn encode_batch(entries: &[(u64, SampleReading)]) -> (bytes: Vec<u8>)
    ensures
        bytes@ == log_bytes(entries@),
        bytes@.len() == 24 * entries@.len(),
        forall|i: int|
            0 <= i < entries@.len() ==> {
                &&& bytes@.subrange(24 * i, 24 * i + 8) == spec_u64_to_le_bytes(
                    (#[trigger] entries@[i]).0,
                )
                &&& bytes@.subrange(24 * i + 8, 24 * i + 16) == spec_u64_to_le_bytes(
                    entries@[i].1.timestamp as u64,
                )
                &&& bytes@.subrange(24 * i + 16, 24 * i + 24) == spec_u64_to_le_bytes(
                    entries@[i].1.value_bits,
                )
            },
{
    let mut bytes: Vec<u8> = Vec::new();
    let n = entries.len();
    let mut i: usize = 0;
    while i < n
        invariant
            i <= n,
            n == entries@.len(),
            bytes@ == log_bytes(entries@.take(i as int)),
        decreases n - i,
    {
        let buf = encode_entry(entries[i].0, &entries[i].1);
        let ghost before = bytes@;
        let mut j: usize = 0;
        while j < 24
            invariant
                0 <= j <= 24,
                buf@.len() == 24,
                bytes@ == before + buf@.take(j as int),
            decreases 24 - j,
        {
            bytes.push(buf[j]);
            proof {
                assert(buf@.take(j + 1) =~= buf@.take(j as int).push(buf@[j as int]));
            }
            j = j + 1;
        }
        proof {
            assert(buf@.take(24) =~= buf@);
            assert(entries@.take(i + 1).drop_last() =~= entries@.take(i as int));
            assert(entries@.take(i + 1).last() == entries@[i as int]);
        }
        i = i + 1;
    }
    proof {
        assert(entries@.take(n as int) =~= entries@);
        lemma_log_bytes_len(entries@);
        assert forall|i: int| 0 <= i < entries@.len() implies {
            &&& bytes@.subrange(24 * i, 24 * i + 8) == spec_u64_to_le_bytes(
                (#[trigger] entries@[i]).0,
            )
            &&& bytes@.subrange(24 * i + 8, 24 * i + 16) == spec_u64_to_le_bytes(
                entries@[i].1.timestamp as u64,
            )
            &&& bytes@.subrange(24 * i + 16, 24 * i + 24) == spec_u64_to_le_bytes(
                entries@[i].1.value_bits,
            )
        } by {
            law_log_layout(entries@, i);
        }
    }
    bytes
}

/// Reads a write-ahead log back.
pub struct WalReplay;

impl WalReplay {
    /// The entries held by the log `bytes`, in the order they were written.
    pub fn decode_log(bytes: &[u8]) -> (entries: Vec<(u64, SampleReading)>)
        ensures
            entries@ == log_entries(bytes@),
            entries@.len() == bytes@.len() / 24,
            forall|i: int|
                0 <= i < entries@.len() ==> {
                    &&& (#[trigger] entries@[i]).0 == spec_u64_from_le_bytes(
                        bytes@.subrange(24 * i, 24 * i + 8),
                    )
                    &&& entries@[i].1.timestamp == spec_u64_from_le_bytes(
                        bytes@.subrange(24 * i + 8, 24 * i + 16),
                    ) as i64
                    &&& entries@[i].1.value_bits == spec_u64_from_le_bytes(
                        bytes@.subrange(24 * i + 16, 24 * i + 24),
                    )
                },
    {
        let n = bytes.len() / 24;
        let mut entries: Vec<(u64, SampleReading)> = Vec::new();
        let mut i: usize = 0;
        while i < n
            invariant
                i <= n,
                n == bytes@.len() / 24,
                bytes@.len() == bytes.len(),
                entries@.len() == i,
                forall|k: int| 0 <= k < i ==> #[trigger] entries@[k] == log_entries(bytes@)[k],
            decreases n - i,
        {
            assert(i * 24 + 24 <= bytes@.len()) by (nonlinear_arith)
                requires
                    i < n,
                    n == bytes@.len() / 24,
            ;
            assert(bytes@.len() == bytes.len());
            let off = i * 24;
            let mut buf = [0u8; 24];
            let mut j: usize = 0;
            while j < 24
                invariant
                    0 <= j <= 24,
                    off + 24 <= bytes@.len(),
                    bytes@.len() == bytes.len(),
                    buf@.len() == 24,
                    forall|k: int| 0 <= k < j ==> buf@[k] == bytes@[off + k],
                decreases 24 - j,
            {
                buf[j] = bytes[off + j];
                j = j + 1;
            }
            assert(buf@ =~= bytes@.subrange(24 * i, 24 * i + 24));
            let entry = decode_entry(&buf);
            entries.push(entry);
            i = i + 1;
        }
        assert(entries@ =~= log_entries(bytes@));
        proof {
            assert forall|i: int| 0 <= i < entries@.len() implies {
                &&& (#[trigger] entries@[i]).0 == spec_u64_from_le_bytes(
                    bytes@.subrange(24 * i, 24 * i + 8),
                )
                &&& entries@[i].1.timestamp == spec_u64_from_le_bytes(
                    bytes@.subrange(24 * i + 8, 24 * i + 16),
                ) as i64
                &&& entries@[i].1.value_bits == spec_u64_from_le_bytes(
                    bytes@.subrange(24 * i + 16, 24 * i + 24),
                )
            } by {
                assert(24 * i + 24 <= bytes@.len()) by (nonlinear_arith)
                    requires
                        0 <= i < bytes@.len() / 24,
                ;
                let e = bytes@.subrange(24 * i, 24 * i + 24);
                law_entry_decode(e);
                assert(e.subrange(0, 8) =~= bytes@.subrange(24 * i, 24 * i + 8));
                assert(e.subrange(8, 16) =~= bytes@.subrange(24 * i + 8, 24 * i + 16));
                assert(e.subrange(16, 24) =~= bytes@.subrange(24 * i + 16, 24 * i + 24));
            }
        }
        entries
    }
}

/// The bytes of `k` entries are `24 * k` long.
pub proof fn lemma_log_bytes_len(entries: Seq<(u64, SampleReading)>)
    ensures
        log_bytes(entries).len() == 24 * entries.len(),
    decreases entries.len(),
{
    if entries.len() > 0 {
        lemma_log_bytes_len(entries.drop_last());
        lemma_entry_roundtrip(entries.last().0, entries.last().1);
    }
}

/// In the bytes of a sequence of entries, the `i`-th twenty-four bytes are the
/// `i`-th entry's.
pub proof fn lemma_log_bytes_at(entries: Seq<(u64, SampleReading)>, i: int)
    requires
        0 <= i < entries.len(),
    ensures
        log_bytes(entries).subrange(24 * i, 24 * i + 24) == entry_bytes(entries[i].0, entries[i].1),
    decreases entries.len(),
{
    let rest = entries.drop_last();
    lemma_log_bytes_len(rest);
    lemma_entry_roundtrip(entries.last().0, entries.last().1);
    let b = log_bytes(entries);
    if i < entries.len() - 1 {
        lemma_log_bytes_at(rest, i);
        assert(24 * i + 24 <= 24 * rest.len()) by (nonlinear_arith)
            requires
                i < rest.len(),
        ;
        assert(b.subrange(24 * i, 24 * i + 24) =~= log_bytes(rest).subrange(24 * i, 24 * i + 24));
    } else {
        assert(b.subrange(24 * i, 24 * i + 24) =~= entry_bytes(entries[i].0, entries[i].1));
    }
}

/// In the bytes of a sequence of entries, entry `i` occupies bytes
/// `24 * i .. 24 * i + 24`: the little-endian bytes of its series id, of its
/// timestamp (as its two's-complement `u64`), and of its value's bit pattern.
pub proof fn law_log_layout(entries: Seq<(u64, SampleReading)>, i: int)
    requires
        0 <= i < entries.len(),
    ensures
        log_bytes(entries).len() == 24 * entries.len(),
        log_bytes(entries).subrange(24 * i, 24 * i + 8) == spec_u64_to_le_bytes(entries[i].0),
        log_bytes(entries).subrange(24 * i + 8, 24 * i + 16) == spec_u64_to_le_bytes(
            entries[i].1.timestamp as u64,
        ),
        log_bytes(entries).subrange(24 * i + 16, 24 * i + 24) == spec_u64_to_le_bytes(
            entries[i].1.value_bits,
        ),
{
    lemma_log_bytes_len(entries);
    lemma_log_bytes_at(entries, i);
    law_entry_layout(entries[i].0, entries[i].1);
    let b = log_bytes(entries);
    let e = b.subrange(24 * i, 24 * i + 24);
    assert(24 * i + 24 <= 24 * entries.len()) by (nonlinear_arith)
        requires
            i < entries.len(),
    ;
    assert(e.subrange(0, 8) =~= b.subrange(24 * i, 24 * i + 8));
    assert(e.subrange(8, 16) =~= b.subrange(24 * i + 8, 24 * i + 16));
    assert(e.subrange(16, 24) =~= b.subrange(24 * i + 16, 24 * i + 24));
}

/// Replaying a log gives back exactly the entries written to it, in order,
/// even when the last write was cut short.
pub proof fn law_replay_returns_written(entries: Seq<(u64, SampleReading)>, tail: Seq<u8>)
    requires
        tail.len() < 24,
    ensures
        log_entries(log_bytes(entries) + tail) == entries,
{
    let b = log_bytes(entries) + tail;
    lemma_log_bytes_len(entries);
    let n = entries.len();
    assert(b.len() / 24 == n) by (nonlinear_arith)
        requires
            b.len() == 24 * n + tail.len(),
            tail.len() < 24,
    ;
    assert forall|i: int| 0 <= i < n implies #[trigger] log_entries(b)[i] == entries[i] by {
        lemma_log_bytes_at(entries, i);
        lemma_entry_roundtrip(entries[i].0, entries[i].1);
        assert(24 * i + 24 <= 24 * n) by (nonlinear_arith)
            requires
                i < n,
        ;
        assert(b.subrange(24 * i, 24 * i + 24) =~= log_bytes(entries).subrange(24 * i, 24 * i + 24));
    }
    assert(log_entries(b) =~= entries);
}

} // verus!
