use chronos::chunk::{CacheMetrics, Chunk, ChunkData, ChunkMeta};
use chronos::codec::{CodecTable, JsonCodec};
use chronos::errors::ChronosError;
use chronos::types::{Query, TagFilter};

#[test]
fn test_error_messages() {
    let cases = [
        (ChronosError::Other("x".to_string()), "an error occured: x"),
        (ChronosError::EncodeError("bad".to_string()), "encode error: bad"),
        (ChronosError::DecodeError("eof".to_string()), "decode error: eof"),
        (ChronosError::CodecNotFound("zstd".to_string()), "codec not found: zstd"),
        (ChronosError::RegistryError("lock poisoned".to_string()), "registry error: lock poisoned"),
        (ChronosError::IoError("denied".to_string()), "io error: denied"),
    ];
    for (e, m) in cases.iter() {
        assert_eq!(e.message(), *m);
    }
}

#[test]
fn test_json_codec_name() {
    let c = JsonCodec::new();
    assert_eq!(c.name(), "json");
}

#[test]
fn test_cache_metrics_default() {
    let m = CacheMetrics::default();
    assert_eq!((m.hits, m.misses, m.evictions, m.size, m.capacity), (0, 0, 0, 0, 0));
}

#[test]
fn test_chunk_holds_points() {
    let chunk = Chunk {
        meta: ChunkMeta { chunk_id: 1, series_id: 2, start_time: 1000, end_time: 2000 },
        data: ChunkData {
            timestamps: vec![1000, 1500, 2000],
            value_bits: vec![1.0f64.to_bits(), 2.0f64.to_bits(), 3.0f64.to_bits()],
        },
    };
    let copy = chunk.clone();
    assert_eq!(copy.meta, chunk.meta);
    assert_eq!(copy.data.timestamps, vec![1000, 1500, 2000]);
}

#[test]
fn test_query_holds_filters() {
    let q = Query {
        metric: "cpu".to_string(),
        filters: vec![TagFilter { key: "host".to_string(), value: "a".to_string() }],
        start: 0,
        end: 10,
    };
    let c = q.clone();
    assert_eq!(c.filters[0].key, "host");
    assert_eq!(c.end, 10);
}

#[test]
fn test_codec_table_register_get() {
    let mut t: CodecTable<u32> = CodecTable::new();
    assert!(!t.contains("json"));
    match t.get("json") {
        Err(ChronosError::CodecNotFound(name)) => assert_eq!(name, "json"),
        _ => panic!("expected CodecNotFound"),
    }
    t.register("json".to_string(), 1);
    t.register("gorilla".to_string(), 2);
    assert_eq!(*t.get("json").unwrap(), 1);
    t.register("json".to_string(), 3);
    assert_eq!(*t.get("json").unwrap(), 3);
    assert!(t.contains("gorilla"));
    assert_eq!(t.list(), vec!["json".to_string(), "gorilla".to_string()]);
}
