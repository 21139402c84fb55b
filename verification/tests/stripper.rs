//! Tests of the comment stripper and the signature loader.

use prm::read_without_comments;

fn strip(lines: &[&str]) -> Vec<String> {
    let raw: Vec<String> = lines.iter().map(|s| s.to_string()).collect();
    read_without_comments(&raw)
}

#[test]
fn line_comment_is_dropped() {
    let out = strip(&["keep this // drop this"]);
    assert_eq!(out, vec!["keep this".to_string()]);
}

#[test]
fn block_comment_across_three_lines() {
    let out = strip(&["a /* start", "middle line is gone", "end */ b"]);
    assert_eq!(out, vec!["a".to_string(), "b".to_string()]);
}

#[test]
fn two_block_comments_in_one_line() {
    let out = strip(&["x /*c1*/ y /*c2*/ z"]);
    assert_eq!(out.len(), 1);
    // The markers and their interiors are removed; the join keeps the
    // blanks that stood around them, so the content is compared by token.
    assert_eq!(out[0], "x  y  z");
    let toks: Vec<&str> = out[0].split_whitespace().collect();
    assert_eq!(toks, vec!["x", "y", "z"]);
}

#[test]
fn stripping_is_idempotent_on_concrete_input() {
    let first = strip(&["a /* start", "gone", "end */ b", "c // tail", "  spaced  "]);
    let again = read_without_comments(&first);
    assert_eq!(first, again);
}

#[test]
fn blank_and_comment_only_lines_vanish() {
    let out = strip(&["   ", "", "// only a comment", "/* a */", "word"]);
    assert_eq!(out, vec!["word".to_string()]);
}

#[test]
fn unterminated_block_discards_rest_of_file() {
    let out = strip(&["head /* open", "never", "closed"]);
    assert_eq!(out, vec!["head".to_string()]);
}
