//! Frame decoder tests: single bulks, whole frames, fragmentation, and
//! every protocol fault.

use respkv::parse::{decode_frame, parse_array_len, parse_bulk, ParseError};

#[test]
fn test_parse_bulk_1() {
    let target = b"$6\r\nfoobar\r\n";
    let (_, parse) = parse_bulk(target).unwrap();
    assert_eq!(parse, Some(b"foobar".to_vec()));
}

#[test]
fn test_parse_bulk_2() {
    let target = b"$-1\r\n";
    let (_, parse) = parse_bulk(target).unwrap();
    assert_eq!(parse, None);
}

#[test]
fn parse_bulk_consumes_exactly_one_bulk() {
    let (used, content) = parse_bulk(b"$3\r\nabc\r\n$1\r\nz\r\n").unwrap();
    assert_eq!(used, 9);
    assert_eq!(content, Some(b"abc".to_vec()));
}

#[test]
fn parse_bulk_binary_content() {
    let (used, content) = parse_bulk(b"$5\r\na\r\nb\0\r\n").unwrap();
    assert_eq!(used, 11);
    assert_eq!(content, Some(b"a\r\nb\0".to_vec()));
}

#[test]
fn parse_bulk_length_mismatch() {
    assert!(matches!(parse_bulk(b"$3\r\nabcd\r\n"), Err(ParseError::LengthMismatch)));
}

#[test]
fn parse_bulk_bad_prefix() {
    assert!(matches!(parse_bulk(b"x3\r\nabc\r\n"), Err(ParseError::BadBulkPrefix)));
}

#[test]
fn parse_bulk_bad_length() {
    assert!(matches!(parse_bulk(b"$x\r\nabc\r\n"), Err(ParseError::BadBulkLength)));
    assert!(matches!(parse_bulk(b"$-2\r\n"), Err(ParseError::BadBulkLength)));
}

#[test]
fn parse_bulk_incomplete() {
    assert!(matches!(parse_bulk(b"$6\r\nfoo"), Err(ParseError::Incomplete)));
    assert!(matches!(parse_bulk(b"$6"), Err(ParseError::Incomplete)));
    assert!(matches!(parse_bulk(b""), Err(ParseError::Incomplete)));
}

#[test]
fn parse_array_len_reads_header() {
    let (used, count) = parse_array_len(b"*3\r\n$3\r\nfoo\r\n").unwrap();
    assert_eq!(used, 4);
    assert_eq!(count, 3);
}

#[test]
fn parse_array_len_bad_prefix() {
    assert!(matches!(parse_array_len(b"PING\r\n"), Err(ParseError::BadArrayPrefix)));
}

#[test]
fn parse_array_len_bad_count() {
    assert!(matches!(parse_array_len(b"*x\r\n"), Err(ParseError::BadArrayCount)));
    assert!(matches!(parse_array_len(b"*-1\r\n"), Err(ParseError::BadArrayCount)));
}

#[test]
fn decode_frame_whole_request() {
    let req = b"*3\r\n$3\r\nSET\r\n$3\r\nfoo\r\n$3\r\nbar\r\n";
    let (used, bulks) = decode_frame(req).unwrap();
    assert_eq!(used, req.len());
    assert_eq!(bulks, vec![b"SET".to_vec(), b"foo".to_vec(), b"bar".to_vec()]);
}

#[test]
fn decode_frame_keeps_trailing_bytes() {
    let req = b"*1\r\n$4\r\nPING\r\n*1\r\n";
    let (used, bulks) = decode_frame(req).unwrap();
    assert_eq!(used, 14);
    assert_eq!(bulks, vec![b"PING".to_vec()]);
}

#[test]
fn decode_frame_incomplete_asks_for_more() {
    // Any prefix of a frame is Incomplete, never a fault: one byte may
    // arrive at a time.
    let req = b"*2\r\n$4\r\nPING\r\n$2\r\nhi\r\n";
    for cut in 0..req.len() {
        assert!(matches!(decode_frame(&req[..cut]), Err(ParseError::Incomplete)));
    }
    let (used, bulks) = decode_frame(req).unwrap();
    assert_eq!(used, req.len());
    assert_eq!(bulks.len(), 2);
}

#[test]
fn decode_frame_rejects_null_bulk() {
    assert!(matches!(decode_frame(b"*1\r\n$-1\r\n"), Err(ParseError::NullBulk)));
}

#[test]
fn decode_frame_empty_array() {
    let (used, bulks) = decode_frame(b"*0\r\n").unwrap();
    assert_eq!(used, 4);
    assert!(bulks.is_empty());
}
