use lib::spool::{
    decode_spool_segment_bytes, rle_compress, rle_decompress, spool_segment_header_v1,
    spool_segment_header_v2_rle, PendingSpoolRecord, SpoolSegmentReadError,
};
use lib::config::SpoolCompression;

#[test]
fn corrupt_compressed_spool_segment_is_rejected() {
    let mut bytes = spool_segment_header_v2_rle();
    bytes.extend_from_slice(format!("{:016x} {:016x} ", 10usize, 1usize).as_bytes());
    bytes.push(0xff);
    bytes.push(b'\n');

    let err = decode_spool_segment_bytes(&bytes)
        .expect_err("truncated repeated run must be rejected");
    assert!(matches!(err, SpoolSegmentReadError::Corrupt(_)));
    assert!(err.detail().contains("RLE repeated run is truncated"));
}

#[test]
fn unsupported_compressed_spool_segment_header_is_rejected() {
    let bytes = b"aegishv-spool-v2 compression=zstd record=hex-u64-payload\n".to_vec();
    let err =
        decode_spool_segment_bytes(&bytes).expect_err("unsupported compression must fail");
    assert!(matches!(err, SpoolSegmentReadError::Unsupported(_)));
    assert!(err.detail().contains("unsupported spool segment"));
}

#[test]
fn compressed_record_round_trips_and_shrinks_repeated_text() {
    let line = format!(
        "{{\"reason\":\"compressed_spool\",\"payload\":\"{}\"}}",
        "A".repeat(512)
    );
    let record = PendingSpoolRecord::build(&line, SpoolCompression::Rle);
    let mut bytes = spool_segment_header_v2_rle();
    bytes.extend_from_slice(&record.frame());

    assert!(!String::from_utf8_lossy(&bytes).contains(&"A".repeat(128)));
    let records = decode_spool_segment_bytes(&bytes).expect("decode compressed segment");
    assert_eq!(records.len(), 1);
    assert_eq!(records[0].line, line);
    assert!(records[0].compressed);
    assert_eq!(records[0].uncompressed_len, line.len());
    assert!(records[0].payload_len < records[0].uncompressed_len);
}

#[test]
fn plain_records_round_trip() {
    let mut bytes = spool_segment_header_v1();
    for line in ["{\"a\":1}", "", "héllo"] {
        let record = PendingSpoolRecord::build(line, SpoolCompression::NoCompression);
        bytes.extend_from_slice(&record.frame());
    }
    let records = decode_spool_segment_bytes(&bytes).unwrap();
    assert_eq!(records.len(), 3);
    assert_eq!(records[0].line, "{\"a\":1}");
    assert_eq!(records[1].line, "");
    assert_eq!(records[2].line, "héllo");
    assert_eq!(records[2].uncompressed_len, 6);
    assert!(!records[0].compressed);
}

#[test]
fn rle_encodes_runs_and_literals_exactly() {
    assert_eq!(rle_compress(b"aaaa"), vec![0x81, b'a']);
    assert_eq!(rle_compress(b"abc"), vec![2, b'a', b'b', b'c']);
    assert_eq!(rle_compress(b""), Vec::<u8>::new());
    let long = vec![7u8; 131];
    assert_eq!(rle_compress(&long), vec![0xff, 7, 0, 7]);
    assert_eq!(rle_decompress(&[0x81, b'a'], 4).unwrap(), b"aaaa".to_vec());
}

#[test]
fn rle_decompress_reports_each_error() {
    assert!(rle_decompress(&[3, b'a'], 4)
        .unwrap_err()
        .detail()
        .contains("RLE literal run is truncated"));
    assert!(rle_decompress(&[0x81, b'a'], 3)
        .unwrap_err()
        .detail()
        .contains("expands past the declared length"));
    assert!(rle_decompress(&[0x81, b'a'], 5)
        .unwrap_err()
        .detail()
        .contains("does not match the declared length"));
}

#[test]
fn hex_field_errors_are_reported() {
    let mut bytes = spool_segment_header_v1();
    bytes.extend_from_slice(b"000000000000000z x\n");
    let err = decode_spool_segment_bytes(&bytes).unwrap_err();
    assert!(err.detail().contains("not hexadecimal"));

    let mut bytes = spool_segment_header_v1();
    bytes.extend_from_slice(b"0000000000000001");
    let err = decode_spool_segment_bytes(&bytes).unwrap_err();
    assert!(err.detail().contains("hex field is truncated"));

    let mut bytes = spool_segment_header_v1();
    bytes.extend_from_slice(b"+000000000000001 x\n");
    let records = decode_spool_segment_bytes(&bytes).unwrap();
    assert_eq!(records[0].line, "x");
}
