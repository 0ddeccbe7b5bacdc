use golden::cursor::{CursorOp, Piece};
use golden::diff::DiffReporter;

fn rendered(pieces: &[Piece]) -> Vec<u8> {
    let mut out = Vec::new();
    for p in pieces {
        out.extend_from_slice(&p.text);
    }
    out
}

fn by_op(pieces: &[Piece], op: CursorOp) -> Vec<u8> {
    let mut out = Vec::new();
    for p in pieces {
        if p.op == op {
            out.extend_from_slice(&p.text);
        }
    }
    out
}

fn count_occurrences(hay: &[u8], needle: &[u8]) -> usize {
    if needle.is_empty() || hay.len() < needle.len() {
        return 0;
    }
    (0..=hay.len() - needle.len()).filter(|&i| &hay[i..i + needle.len()] == needle).count()
}

#[test]
fn equal_windows_report_zero_and_stay_silent() {
    let samples: Vec<Vec<u8>> = vec![
        Vec::new(),
        b"a".to_vec(),
        b"abc".to_vec(),
        b"line1\nline2\n".to_vec(),
        vec![b'x'; 5000],
    ];
    for s in samples {
        let (count, output) = DiffReporter::compare(&s, &s);
        assert_eq!(count, Some(0));
        assert!(output.is_empty());
    }
}

#[test]
fn single_changed_line_is_one_region() {
    let old = b"abc\ndef\n".to_vec();
    let new = b"abc\nxyz\n".to_vec();
    let (count, output) = DiffReporter::compare(&old, &new);
    assert_eq!(count, Some(1));
    let deleted = by_op(&output, CursorOp::Delete);
    let inserted = by_op(&output, CursorOp::Insert);
    assert_eq!(deleted, b"def".to_vec());
    assert_eq!(inserted, b"xyz".to_vec());
    // The shared context must not be echoed twice.
    let all = rendered(&output);
    assert!(count_occurrences(&all, b"abc") <= 1);
}

#[test]
fn differing_windows_report_nonzero() {
    let old = b"one two three".to_vec();
    let new = b"one 2 three".to_vec();
    let (count, output) = DiffReporter::compare(&old, &new);
    let n = count.expect("both windows are text");
    assert!(n >= 1);
    assert!(!output.is_empty());
}

#[test]
fn non_text_windows_are_refused() {
    let old = vec![0xffu8, 0xfe, 0x00];
    let new = b"abc".to_vec();
    let (count, output) = DiffReporter::compare(&old, &new);
    assert_eq!(count, None);
    assert!(output.is_empty());
    // Equal bytes pass without needing to be text.
    let (count2, _) = DiffReporter::compare(&old, &old);
    assert_eq!(count2, Some(0));
}

#[test]
fn insertion_only_is_one_region() {
    let old = b"alpha\ngamma\n".to_vec();
    let new = b"alpha\nbeta\ngamma\n".to_vec();
    let (count, output) = DiffReporter::compare(&old, &new);
    assert_eq!(count, Some(1));
    let inserted = by_op(&output, CursorOp::Insert);
    assert!(count_occurrences(&inserted, b"beta") == 1);
}
