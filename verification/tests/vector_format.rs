use prism::error::Error;
use prism::vector::Metric;
use prism::vector_format::{detect_index_format, encode_v1, graph_frame, load_binary, FlatIndexData, IndexFileFormat};

fn sample() -> FlatIndexData {
    FlatIndexData {
        metric: Metric::Euclidean,
        dimensions: 2,
        m: 16,
        ef_construction: 200,
        rebuild_threshold: 32,
        keys: vec![7, 9],
        points: vec![vec![1.5f32.to_bits(), (-2.0f32).to_bits()], vec![0.0f32.to_bits(), 3.25f32.to_bits()]],
    }
}

#[test]
fn flat_format_roundtrip() {
    let x = sample();
    let bytes = encode_v1(&x);
    assert_eq!(bytes.len(), 22 + 2 * 4 + 2 * 2 * 4);
    assert_eq!(&bytes[0..4], b"PRHW");
    assert_eq!(bytes[4], 1);
    assert_eq!(bytes[5], 1);
    let y = load_binary(&bytes).unwrap();
    assert_eq!(y.metric, Metric::Euclidean);
    assert_eq!((y.dimensions, y.m, y.ef_construction, y.rebuild_threshold), (2, 16, 200, 32));
    assert_eq!(y.keys, vec![7, 9]);
    assert_eq!(f32::from_bits(y.points[0][0]), 1.5);
    assert_eq!(f32::from_bits(y.points[0][1]), -2.0);
    assert_eq!(f32::from_bits(y.points[1][1]), 3.25);
    assert_eq!(detect_index_format(&bytes), IndexFileFormat::FlatV1);
}

#[test]
fn flat_format_layout_is_little_endian() {
    let x = sample();
    let bytes = encode_v1(&x);
    assert_eq!(&bytes[6..10], &2u32.to_le_bytes());
    assert_eq!(&bytes[10..14], &2u32.to_le_bytes());
    assert_eq!(&bytes[14..16], &16u16.to_le_bytes());
    assert_eq!(&bytes[16..18], &200u16.to_le_bytes());
    assert_eq!(&bytes[18..22], &32u32.to_le_bytes());
    assert_eq!(&bytes[22..26], &7u32.to_le_bytes());
    assert_eq!(&bytes[30..34], &1.5f32.to_le_bytes());
}

#[test]
fn flat_format_errors() {
    match load_binary(b"PRHW") {
        Err(Error::Backend(m)) => assert_eq!(m, "Binary index too short"),
        _ => panic!("expected too short"),
    }
    let mut bytes = encode_v1(&sample());
    bytes.truncate(40);
    match load_binary(&bytes) {
        Err(Error::Backend(m)) => assert_eq!(m, "Binary index truncated: expected 46 bytes, got 40"),
        _ => panic!("expected truncated"),
    }
}

#[test]
fn unknown_metric_byte_reads_as_cosine() {
    let mut bytes = encode_v1(&sample());
    bytes[5] = 9;
    assert_eq!(load_binary(&bytes).unwrap().metric, Metric::Cosine);
}

#[test]
fn format_detection() {
    assert_eq!(detect_index_format(b"PRH3...."), IndexFileFormat::GraphV3);
    assert_eq!(detect_index_format(b"PRH2"), IndexFileFormat::GraphV2);
    assert_eq!(detect_index_format(b"PRHW short"), IndexFileFormat::LegacyJson);
    assert_eq!(detect_index_format(b"{\"dimensions\": 3}"), IndexFileFormat::LegacyJson);
}

#[test]
fn graph_frame_split() {
    let mut body = 3u32.to_le_bytes().to_vec();
    body.extend_from_slice(b"abcGRAPH");
    assert_eq!(graph_frame(&body, true).unwrap(), 7);
    match graph_frame(&body[..5], true) {
        Err(Error::Backend(m)) => assert_eq!(m, "V3 index meta truncated"),
        _ => panic!("expected truncated"),
    }
    match graph_frame(&body[..2], false) {
        Err(Error::Backend(m)) => assert_eq!(m, "V2 index too short"),
        _ => panic!("expected too short"),
    }
}
