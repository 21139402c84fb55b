//! The comment-stripping preprocessor: raw lines are turned into cleaned,
//! trimmed, non-empty content lines, with block-comment state carried across
//! lines.
//!
//! Within a line that is not inside a block comment, a `/*` whose matching
//! `*/` occurs later in the same line is removed together with the text
//! between them, and scanning resumes after the `*/`; a `/*` with no closing
//! marker keeps the prefix before it and puts the following lines inside the
//! block comment.  Inside a block comment only `*/` is looked for.  Outside
//! block comments a `//` drops the rest of the line.  Whatever remains is
//! trimmed and emitted only when non-empty.

use vstd::prelude::*;

use crate::text::{
    find_pair, find_pair_str, is_trimmed, lemma_find_pair, lemma_trim_is_trimmed,
    lemma_trim_of_trimmed, pair_at, str_views, trim, trim_left, trim_right, trim_spec,
};

verus! {

/// Trim `s` and emit it when non-empty, with `b` as the carried block-comment
/// state.
pub open spec fn emit_line(s: Seq<char>, b: bool) -> (Option<Seq<char>>, bool) {
    let t = trim_spec(s);
    (if t.len() == 0 {
        None
    } else {
        Some(t)
    }, b)
}

/// The cleaned content of one raw line together with the block-comment state
/// carried to the next line.
pub open spec fn strip_line(s: Seq<char>, in_block: bool) -> (Option<Seq<char>>, bool)
    decreases s.len(),
    via strip_line_dec
{
    if in_block {
        match find_pair(s, '*', '/') {
            Some(i) => strip_line(s.skip(i + 2), false),
            None => (None, true),
        }
    } else {
        match find_pair(s, '/', '*') {
            Some(p) => match find_pair(s.skip(p + 2), '*', '/') {
                Some(q) => strip_line(s.take(p) + s.skip(p + 2).skip(q + 2), false),
                None => match find_pair(s.take(p), '/', '/') {
                    Some(r) => emit_line(s.take(p).take(r), true),
                    None => emit_line(s.take(p), true),
                },
            },
            None => match find_pair(s, '/', '/') {
                Some(r) => emit_line(s.take(r), false),
                None => emit_line(s, false),
            },
        }
    }
}

#[via_fn]
proof fn strip_line_dec(s: Seq<char>, in_block: bool) {
    if in_block {
        lemma_find_pair(s, '*', '/');
    } else {
        lemma_find_pair(s, '/', '*');
        match find_pair(s, '/', '*') {
            Some(p) => {
                lemma_find_pair(s.skip(p + 2), '*', '/');
            },
            None => {},
        }
    }
}

/// The cleaned line sequence produced from `lines`, entered with block-comment
/// state `in_block`.
pub open spec fn strip_lines_from(lines: Seq<Seq<char>>, in_block: bool) -> Seq<Seq<char>>
    decreases lines.len(),
{
    if lines.len() == 0 {
        Seq::empty()
    } else {
        let r = strip_line(lines[0], in_block);
        let rest = strip_lines_from(lines.skip(1), r.1);
        match r.0 {
            Some(c) => seq![c] + rest,
            None => rest,
        }
    }
}

/// The cleaned line sequence of a whole file: stripping starts outside any
/// block comment.
pub open spec fn stripped(lines: Seq<Seq<char>>) -> Seq<Seq<char>> {
    strip_lines_from(lines, false)
}

/// The two-character marker `ab` occurs nowhere in `s`.
pub open spec fn no_pair(s: Seq<char>, a: char, b: char) -> bool {
    forall|j: int| !pair_at(s, a, b, j)
}

proof fn lemma_no_pair_take(s: Seq<char>, a: char, b: char, k: int)
    requires
        no_pair(s, a, b),
        0 <= k <= s.len(),
    ensures
        no_pair(s.take(k), a, b),
{
    assert forall|j: int| !pair_at(s.take(k), a, b, j) by {
        if 0 <= j && j + 2 <= k {
            assert(s.take(k)[j] == s[j]);
            assert(s.take(k)[j + 1] == s[j + 1]);
            assert(!pair_at(s, a, b, j));
        }
    }
}

proof fn lemma_no_pair_skip(s: Seq<char>, a: char, b: char, k: int)
    requires
        no_pair(s, a, b),
        0 <= k <= s.len(),
    ensures
        no_pair(s.skip(k), a, b),
{
    assert forall|j: int| !pair_at(s.skip(k), a, b, j) by {
        if 0 <= j && j + 2 <= s.skip(k).len() {
            assert(s.skip(k)[j] == s[j + k]);
            assert(s.skip(k)[j + 1] == s[j + k + 1]);
            assert(!pair_at(s, a, b, j + k));
        }
    }
}

proof fn lemma_no_pair_trim_left(s: Seq<char>, a: char, b: char)
    requires
        no_pair(s, a, b),
    ensures
        no_pair(trim_left(s), a, b),
    decreases s.len(),
{
    if s.len() > 0 && crate::text::is_space(s[0]) {
        lemma_no_pair_skip(s, a, b, 1);
        lemma_no_pair_trim_left(s.skip(1), a, b);
    }
}

proof fn lemma_no_pair_trim_right(s: Seq<char>, a: char, b: char)
    requires
        no_pair(s, a, b),
    ensures
        no_pair(trim_right(s), a, b),
    decreases s.len(),
{
    if s.len() > 0 && crate::text::is_space(s[s.len() - 1]) {
        lemma_no_pair_take(s, a, b, s.len() - 1);
        lemma_no_pair_trim_right(s.take(s.len() - 1), a, b);
    }
}

proof fn lemma_no_pair_trim(s: Seq<char>, a: char, b: char)
    requires
        no_pair(s, a, b),
    ensures
        no_pair(trim_spec(s), a, b),
{
    lemma_no_pair_trim_left(s, a, b);
    lemma_no_pair_trim_right(trim_left(s), a, b);
}

/// A line as the Stripper emits it: non-empty, trimmed, and free of `/*` and
/// `//` markers.
pub open spec fn clean_line(s: Seq<char>) -> bool {
    s.len() > 0 && is_trimmed(s) && no_pair(s, '/', '*') && no_pair(s, '/', '/')
}

proof fn lemma_emit_clean(x: Seq<char>, b: bool)
    requires
        no_pair(x, '/', '*'),
        no_pair(x, '/', '/'),
    ensures
        match emit_line(x, b).0 {
            Some(e) => clean_line(e),
            None => true,
        },
{
    lemma_no_pair_trim(x, '/', '*');
    lemma_no_pair_trim(x, '/', '/');
    lemma_trim_is_trimmed(x);
}

/// Whatever the Stripper emits for one raw line is a clean line.
pub proof fn lemma_strip_line_clean(s: Seq<char>, b: bool)
    ensures
        match strip_line(s, b).0 {
            Some(e) => clean_line(e),
            None => true,
        },
    decreases s.len(),
{
    if b {
        lemma_find_pair(s, '*', '/');
        match find_pair(s, '*', '/') {
            Some(i) => {
                lemma_strip_line_clean(s.skip(i + 2), false);
            },
            None => {},
        }
    } else {
        lemma_find_pair(s, '/', '*');
        match find_pair(s, '/', '*') {
            Some(p) => {
                lemma_find_pair(s.skip(p + 2), '*', '/');
                match find_pair(s.skip(p + 2), '*', '/') {
                    Some(q) => {
                        lemma_strip_line_clean(s.take(p) + s.skip(p + 2).skip(q + 2), false);
                    },
                    None => {
                        let pre = s.take(p);
                        assert forall|j: int| !pair_at(pre, '/', '*', j) by {
                            if 0 <= j && j + 2 <= pre.len() {
                                assert(pre[j] == s[j]);
                                assert(pre[j + 1] == s[j + 1]);
                                assert(!pair_at(s, '/', '*', j));
                            }
                        }
                        lemma_find_pair(pre, '/', '/');
                        match find_pair(pre, '/', '/') {
                            Some(r) => {
                                let cut = pre.take(r);
                                lemma_no_pair_take(pre, '/', '*', r);
                                assert forall|j: int| !pair_at(cut, '/', '/', j) by {
                                    if 0 <= j && j + 2 <= cut.len() {
                                        assert(cut[j] == pre[j]);
                                        assert(cut[j + 1] == pre[j + 1]);
                                        assert(!pair_at(pre, '/', '/', j));
                                    }
                                }
                                lemma_emit_clean(cut, true);
                            },
                            None => {
                                lemma_emit_clean(pre, true);
                            },
                        }
                    },
                }
            },
            None => {
                lemma_find_pair(s, '/', '/');
                match find_pair(s, '/', '/') {
                    Some(r) => {
                        let cut = s.take(r);
                        lemma_no_pair_take(s, '/', '*', r);
                        assert forall|j: int| !pair_at(cut, '/', '/', j) by {
                            if 0 <= j && j + 2 <= cut.len() {
                                assert(cut[j] == s[j]);
                                assert(cut[j + 1] == s[j + 1]);
                                assert(!pair_at(s, '/', '/', j));
                            }
                        }
                        lemma_emit_clean(cut, false);
                    },
                    None => {
                        lemma_emit_clean(s, false);
                    },
                }
            },
        }
    }
}

/// A clean line passes through the Stripper unchanged, and leaves the state
/// outside any block comment.
pub proof fn lemma_strip_clean_line(e: Seq<char>)
    requires
        clean_line(e),
    ensures
        strip_line(e, false) == (Some(e), false),
{
    lemma_find_pair(e, '/', '*');
    match find_pair(e, '/', '*') {
        Some(i) => {
            assert(pair_at(e, '/', '*', i));
            assert(false);
        },
        None => {},
    }
    lemma_find_pair(e, '/', '/');
    match find_pair(e, '/', '/') {
        Some(i) => {
            assert(pair_at(e, '/', '/', i));
            assert(false);
        },
        None => {},
    }
    lemma_trim_of_trimmed(e);
}

/// Every line of a cleaned line sequence is a clean line.
pub proof fn lemma_strip_lines_clean(lines: Seq<Seq<char>>, b: bool)
    ensures
        forall|k: int|
            0 <= k < strip_lines_from(lines, b).len() ==> clean_line(
                #[trigger] strip_lines_from(lines, b)[k],
            ),
    decreases lines.len(),
{
    if lines.len() == 0 {
    } else {
        let r = strip_line(lines[0], b);
        let rest = strip_lines_from(lines.skip(1), r.1);
        lemma_strip_line_clean(lines[0], b);
        lemma_strip_lines_clean(lines.skip(1), r.1);
        assert forall|k: int| 0 <= k < strip_lines_from(lines, b).len() implies clean_line(
            #[trigger] strip_lines_from(lines, b)[k],
        ) by {
            match r.0 {
                Some(c) => {
                    if k == 0 {
                        assert(strip_lines_from(lines, b)[0] == c);
                    } else {
                        assert(strip_lines_from(lines, b)[k] == rest[k - 1]);
                        assert(clean_line(rest[k - 1]));
                    }
                },
                None => {
                    assert(strip_lines_from(lines, b)[k] == rest[k]);
                    assert(clean_line(rest[k]));
                },
            }
        }
    }
}

proof fn lemma_strip_fixed(cl: Seq<Seq<char>>)
    requires
        forall|k: int| 0 <= k < cl.len() ==> clean_line(#[trigger] cl[k]),
    ensures
        strip_lines_from(cl, false) == cl,
    decreases cl.len(),
{
    if cl.len() == 0 {
        assert(strip_lines_from(cl, false) =~= cl);
    } else {
        lemma_strip_clean_line(cl[0]);
        let tail = cl.skip(1);
        assert(forall|k: int| 0 <= k < tail.len() ==> #[trigger] tail[k] == cl[k + 1]);
        lemma_strip_fixed(tail);
        assert(strip_lines_from(cl, false) =~= seq![cl[0]] + tail);
        assert(seq![cl[0]] + tail =~= cl);
    }
}

/// Idempotence of the Stripper: stripping an already-stripped line sequence
/// yields the identical sequence.
pub proof fn lemma_strip_idempotent(lines: Seq<Seq<char>>)
    ensures
        stripped(stripped(lines)) == stripped(lines),
{
    lemma_strip_lines_clean(lines, false);
    lemma_strip_fixed(stripped(lines));
}

fn emit_trimmed(s: &str, b: bool) -> (r: (Option<String>, bool))
    ensures
        r.1 == b,
        match r.0 {
            Some(c) => emit_line(s@, b).0 == Some(c@),
            None => emit_line(s@, b).0 is None,
        },
{
    let t = trim(s);
    if t.as_str().unicode_len() == 0 {
        (None, b)
    } else {
        (Some(t), b)
    }
}

/// Clean one raw line, given the block-comment state carried into it; returns
/// the emitted content line, if any, and the state carried out.
fn strip_one(line: &str, in_block: bool) -> (r: (Option<String>, bool))
    ensures
        ({
            let sp = strip_line(line@, in_block);
            r.1 == sp.1 && match r.0 {
                Some(c) => sp.0 == Some(c@),
                None => sp.0 is None,
            }
        }),
{
    let mut work: String = line.to_owned();
    let mut blk = in_block;
    loop
        invariant
            strip_line(work@, blk) == strip_line(line@, in_block),
        decreases work@.len(),
    {
        let n = work.as_str().unicode_len();
        if blk {
            match find_pair_str(work.as_str(), '*', '/') {
                Some(i) => {
                    proof {
                        lemma_find_pair(work@, '*', '/');
                    }
                    let next = work.as_str().substring_char(i + 2, n).to_owned();
                    proof {
                        assert(next@ =~= work@.skip(i + 2));
                    }
                    work = next;
                    blk = false;
                },
                None => {
                    return (None, true);
                },
            }
        } else {
            match find_pair_str(work.as_str(), '/', '*') {
                Some(p) => {
                    proof {
                        lemma_find_pair(work@, '/', '*');
                    }
                    let tail = work.as_str().substring_char(p + 2, n);
                    proof {
                        assert(tail@ =~= work@.skip(p + 2));
                    }
                    let tail_n = tail.unicode_len();
                    match find_pair_str(tail, '*', '/') {
                        Some(q) => {
                            proof {
                                lemma_find_pair(tail@, '*', '/');
                            }
                            let post = tail.substring_char(q + 2, tail_n);
                            let pre = work.as_str().substring_char(0, p).to_owned();
                            let next = pre.concat(post);
                            proof {
                                assert(post@ =~= tail@.skip(q + 2));
                                assert(pre@ + post@ =~= work@.take(p as int) + work@.skip(
                                    p + 2,
                                ).skip(q + 2));
                                assert(next@.len() < work@.len());
                            }
                            work = next;
                        },
                        None => {
                            let pre = work.as_str().substring_char(0, p);
                            proof {
                                assert(pre@ =~= work@.take(p as int));
                            }
                            match find_pair_str(pre, '/', '/') {
                                Some(r2) => {
                                    proof {
                                        lemma_find_pair(pre@, '/', '/');
                                    }
                                    let cut = pre.substring_char(0, r2);
                                    proof {
                                        assert(cut@ =~= work@.take(p as int).take(r2 as int));
                                    }
                                    return emit_trimmed(cut, true);
                                },
                                None => {
                                    return emit_trimmed(pre, true);
                                },
                            }
                        },
                    }
                },
                None => {
                    match find_pair_str(work.as_str(), '/', '/') {
                        Some(r2) => {
                            proof {
                                lemma_find_pair(work@, '/', '/');
                            }
                            let cut = work.as_str().substring_char(0, r2);
                            proof {
                                assert(cut@ =~= work@.take(r2 as int));
                            }
                            return emit_trimmed(cut, blk);
                        },
                        None => {
                            return emit_trimmed(work.as_str(), blk);
                        },
                    }
                },
            }
        }
    }
}

/// Strip comments from a sequence of raw lines, yielding the cleaned,
/// trimmed, non-empty content lines, in order.
pub fn read_without_comments(lines: &Vec<String>) -> (r: Vec<String>)
    ensures
        str_views(r@) == stripped(str_views(lines@)),
{
    let ghost all = str_views(lines@);
    let mut out: Vec<String> = Vec::new();
    let mut blk = false;
    let mut i: usize = 0;
    proof {
        assert(all.skip(0) =~= all);
        assert(str_views(out@) =~= Seq::<Seq<char>>::empty());
        assert(str_views(out@) + strip_lines_from(all.skip(0), false) =~= stripped(all));
    }
    while i < lines.len()
        invariant
            0 <= i <= lines.len(),
            all == str_views(lines@),
            stripped(all) == str_views(out@) + strip_lines_from(all.skip(i as int), blk),
        decreases lines.len() - i,
    {
        let (e, b) = strip_one(lines[i].as_str(), blk);
        proof {
            let rem = all.skip(i as int);
            assert(rem[0] == lines@[i as int]@);
            assert(rem.skip(1) =~= all.skip(i as int + 1));
        }
        let ghost old_out = out@;
        match e {
            Some(c) => {
                out.push(c);
                proof {
                    assert(str_views(out@) =~= str_views(old_out).push(c@));
                    assert(str_views(old_out) + (seq![c@] + strip_lines_from(
                        all.skip(i as int + 1),
                        b,
                    )) =~= str_views(out@) + strip_lines_from(all.skip(i as int + 1), b));
                }
            },
            None => {},
        }
        blk = b;
        i = i + 1;
    }
    proof {
        assert(all.skip(lines@.len() as int) =~= Seq::<Seq<char>>::empty());
        assert(str_views(out@) + strip_lines_from(all.skip(lines@.len() as int), blk) =~= str_views(
            out@,
        ));
    }
    out
}

} // verus!
