use golden::cursor::Cursor;
use golden::cursor::CursorOp;
use golden::cursor::Piece;
use golden::gzip::{decode_artifact, encode_artifact, path_is_gz};

#[test]
fn compressed_round_trip_non_empty() {
    let path = b"data/trace.gz".to_vec();
    let content = b"some bytes\nto keep\n".to_vec();
    let stored = encode_artifact(&path, &content);
    assert_ne!(stored, content);
    assert_eq!(decode_artifact(&path, &stored), Some(content));
}

#[test]
fn compressed_round_trip_empty() {
    let path = b"empty.gz".to_vec();
    let content = Vec::new();
    let stored = encode_artifact(&path, &content);
    assert_eq!(decode_artifact(&path, &stored), Some(content));
}

#[test]
fn raw_round_trip() {
    let path = b"plain.txt".to_vec();
    let content = b"kept as is".to_vec();
    let stored = encode_artifact(&path, &content);
    assert_eq!(stored, content);
    assert_eq!(decode_artifact(&path, &stored), Some(content));
}

#[test]
fn raw_decode_never_fails() {
    let path = b"plain.txt".to_vec();
    let garbage = vec![0xffu8, 0x00, 0x80];
    assert_eq!(decode_artifact(&path, &garbage), Some(garbage));
}

#[test]
fn corrupt_compressed_decode_fails() {
    let path = b"bad.gz".to_vec();
    assert_eq!(decode_artifact(&path, &b"not gzip".to_vec()), None);
}

#[test]
fn gz_marker_is_the_final_extension_of_the_final_component() {
    assert!(path_is_gz(&b"a.gz".to_vec()));
    assert!(path_is_gz(&b"dir/a.gz".to_vec()));
    assert!(path_is_gz(&b"a.tar.gz".to_vec()));
    assert!(!path_is_gz(&b"a.txt".to_vec()));
    assert!(!path_is_gz(&b"a.gzx".to_vec()));
    assert!(!path_is_gz(&b"a.gz.txt".to_vec()));
    assert!(!path_is_gz(&b".gz".to_vec()));
    assert!(!path_is_gz(&b"dir/.gz".to_vec()));
    assert!(!path_is_gz(&b"dir.gz/file".to_vec()));
    assert!(!path_is_gz(&b"gz".to_vec()));
}

#[test]
fn cursor_prints_line_prefix_before_first_difference() {
    // Source: two lines; a difference in the middle of the second line.
    let s = b"ab\ncdef\n".to_vec();
    let mut out: Vec<Piece> = Vec::new();
    let mut c = Cursor::new();
    c.advance(&s, 5, CursorOp::Equal, true, &mut out);
    assert!(out.is_empty());
    c.advance(&s, 1, CursorOp::Delete, true, &mut out);
    assert_eq!(out.len(), 2);
    assert_eq!(out[0].op, CursorOp::Equal);
    assert_eq!(out[0].text, b"cd".to_vec());
    assert_eq!(out[1].op, CursorOp::Delete);
    assert_eq!(out[1].text, b"e".to_vec());
    // The rest of the line is echoed up to and including its newline.
    c.advance(&s, 2, CursorOp::Equal, true, &mut out);
    assert_eq!(out.len(), 3);
    assert_eq!(out[2].op, CursorOp::Equal);
    assert_eq!(out[2].text, b"f\n".to_vec());
}

#[test]
fn cursor_suppresses_context_when_told() {
    let s = b"ab\ncdef\n".to_vec();
    let mut out: Vec<Piece> = Vec::new();
    let mut c = Cursor::new();
    c.advance(&s, 5, CursorOp::Equal, false, &mut out);
    c.advance(&s, 1, CursorOp::Insert, false, &mut out);
    assert_eq!(out.len(), 1);
    assert_eq!(out[0].op, CursorOp::Insert);
    assert_eq!(out[0].text, b"e".to_vec());
    c.advance(&s, 2, CursorOp::Equal, false, &mut out);
    assert_eq!(out.len(), 1);
}
