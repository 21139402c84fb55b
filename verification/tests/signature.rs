//! Tests of the signature-checking step of the file-loading protocol.

use prm::{check_signature, signature_line, PrmOpenError};

fn rows(lines: &[&str]) -> Vec<String> {
    lines.iter().map(|s| s.to_string()).collect()
}

#[test]
fn empty_source_is_a_signature_mismatch() {
    let r = check_signature(rows(&[]));
    assert_eq!(r, Err(PrmOpenError::WrongSignature));
}

#[test]
fn wrong_first_line_is_a_signature_mismatch() {
    let r = check_signature(rows(&["something else", "data"]));
    assert_eq!(r, Err(PrmOpenError::WrongSignature));
}

#[test]
fn signature_line_is_removed_from_the_front() {
    let r = check_signature(rows(&[signature_line(), "first", "second"])).unwrap();
    assert_eq!(r, rows(&["first", "second"]));
}

#[test]
fn signature_alone_leaves_no_content() {
    let r = check_signature(rows(&[signature_line()])).unwrap();
    assert!(r.is_empty());
}
