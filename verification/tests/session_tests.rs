use golden::cursor::CursorOp;
use golden::session::{Golden, VerifyError};
use golden::store::Store;

fn session_with(path: &[u8], content: &[u8]) -> Golden {
    let mut g = Golden::new();
    let p = path.to_vec();
    g.file(&p);
    g.append(&p, &content.to_vec());
    g
}

#[test]
fn verify_after_update_succeeds() {
    let mut golden_store = Store::new();
    let content = b"hello\nworld\n";
    let writer = session_with(b"out.txt", content);
    writer.update(&mut golden_store);

    let reader = session_with(b"out.txt", content);
    assert!(reader.verify(&golden_store).is_ok());
}

#[test]
fn verify_after_update_succeeds_compressed() {
    let mut golden_store = Store::new();
    let content = b"compressed payload\nwith lines\n";
    let writer = session_with(b"logs/run.gz", content);
    writer.update(&mut golden_store);

    let reader = session_with(b"logs/run.gz", content);
    assert!(reader.verify(&golden_store).is_ok());
}

#[test]
fn missing_golden_file_fails() {
    let golden_store = Store::new();
    let session = session_with(b"absent.txt", b"anything");
    match session.verify(&golden_store) {
        Err(VerifyError::MissingGolden { path }) => assert_eq!(path, b"absent.txt".to_vec()),
        _ => panic!("a path without a golden counterpart must fail as missing"),
    }
}

#[test]
fn corrupt_golden_artifact_fails() {
    let mut golden_store = Store::new();
    golden_store.put(b"data.gz".to_vec(), b"not a gzip stream".to_vec());
    let session = session_with(b"data.gz", b"whatever");
    match session.verify(&golden_store) {
        Err(VerifyError::CorruptGolden { path }) => assert_eq!(path, b"data.gz".to_vec()),
        _ => panic!("golden bytes that do not decompress must fail as corrupt"),
    }
}

#[test]
fn differing_non_text_fails_unreadable() {
    let mut golden_store = Store::new();
    golden_store.put(b"blob.txt".to_vec(), vec![0xffu8, 0xfe, 0x01]);
    let session = session_with(b"blob.txt", b"ab");
    match session.verify(&golden_store) {
        Err(VerifyError::Unreadable { path }) => assert_eq!(path, b"blob.txt".to_vec()),
        _ => panic!("differing windows that are not text must fail as unreadable"),
    }
}

#[test]
fn update_overwrites_prior_content() {
    let mut golden_store = Store::new();
    session_with(b"f.txt", b"first\n").update(&mut golden_store);
    session_with(b"f.txt", b"second\n").update(&mut golden_store);

    assert!(session_with(b"f.txt", b"second\n").verify(&golden_store).is_ok());
    assert!(session_with(b"f.txt", b"first\n").verify(&golden_store).is_err());
}

#[test]
fn windowing_over_large_equal_content_passes() {
    // Far beyond one 1024-byte window, with line breaks straddling window
    // boundaries.
    let mut content = Vec::new();
    for i in 0..400 {
        content.extend_from_slice(format!("line number {} of the large file\n", i).as_bytes());
    }
    let mut golden_store = Store::new();
    session_with(b"big.txt", &content).update(&mut golden_store);
    assert!(session_with(b"big.txt", &content).verify(&golden_store).is_ok());
}

#[test]
fn windowing_detects_late_difference() {
    let mut content = Vec::new();
    for i in 0..400 {
        content.extend_from_slice(format!("line number {} of the large file\n", i).as_bytes());
    }
    let mut golden_store = Store::new();
    session_with(b"big.txt", &content).update(&mut golden_store);

    let mut changed = content.clone();
    let n = changed.len();
    changed[n - 10] = b'#';
    match session_with(b"big.txt", &changed).verify(&golden_store) {
        Err(VerifyError::Mismatch { path, count, .. }) => {
            assert_eq!(path, b"big.txt".to_vec());
            assert!(count >= 1);
        },
        _ => panic!("a late difference must be reported as a mismatch"),
    }
}

#[test]
fn scenario_single_changed_middle_line() {
    let mut golden_store = Store::new();
    golden_store.put(b"case.txt".to_vec(), b"line1\nline2\nline3\n".to_vec());
    let session = session_with(b"case.txt", b"line1\nlineTWO\nline3\n");
    match session.verify(&golden_store) {
        Err(VerifyError::Mismatch { path, count, output }) => {
            assert_eq!(path, b"case.txt".to_vec());
            assert_eq!(count, 1);
            let mut deleted = Vec::new();
            let mut inserted = Vec::new();
            for p in &output {
                match p.op {
                    CursorOp::Delete => deleted.extend_from_slice(&p.text),
                    CursorOp::Insert => inserted.extend_from_slice(&p.text),
                    CursorOp::Equal => {},
                }
            }
            assert_eq!(deleted, b"2".to_vec());
            assert_eq!(inserted, b"TWO".to_vec());
        },
        _ => panic!("the changed middle line must be reported as one mismatch"),
    }
}

#[test]
fn first_failing_path_wins() {
    let mut golden_store = Store::new();
    golden_store.put(b"a.txt".to_vec(), b"same\n".to_vec());

    let mut session = Golden::new();
    let a = b"a.txt".to_vec();
    let b = b"b.txt".to_vec();
    session.file(&a);
    session.append(&a, &b"same\n".to_vec());
    session.file(&b);
    session.append(&b, &b"content\n".to_vec());

    match session.verify(&golden_store) {
        Err(VerifyError::MissingGolden { path }) => assert_eq!(path, b"b.txt".to_vec()),
        _ => panic!("the first failing path in registration order must be reported"),
    }
}

#[test]
fn repeated_file_request_starts_over() {
    let mut golden_store = Store::new();
    golden_store.put(b"r.txt".to_vec(), b"fresh\n".to_vec());

    let mut session = Golden::new();
    let p = b"r.txt".to_vec();
    session.file(&p);
    session.append(&p, &b"stale\n".to_vec());
    session.file(&p);
    session.append(&p, &b"fresh\n".to_vec());
    assert!(session.verify(&golden_store).is_ok());
}

#[test]
fn empty_session_verifies_and_updates() {
    let golden_store = Store::new();
    let session = Golden::new();
    assert!(session.verify(&golden_store).is_ok());

    let mut golden_store2 = Store::new();
    Golden::new().update(&mut golden_store2);
    assert!(golden_store2.get(&b"any".to_vec()).is_none());
}
