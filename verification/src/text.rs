//! Character-level text utilities shared by every parser: whitespace
//! classification, trimming, two-character marker search, tokenization and
//! decimal number parsing.

use vstd::prelude::*;

verus! {

/// Characters treated as whitespace: the ASCII whitespace set.
pub open spec fn is_space(c: char) -> bool {
    c == ' ' || c == '\t' || c == '\n' || c == '\r' || c == '\u{b}' || c == '\u{c}'
}

/// Executable whitespace test.
pub fn space_char(c: char) -> (r: bool)
    ensures
        r == is_space(c),
{
    c == ' ' || c == '\t' || c == '\n' || c == '\r' || c == '\u{b}' || c == '\u{c}'
}

/// `s` with its leading whitespace removed.
pub open spec fn trim_left(s: Seq<char>) -> Seq<char>
    decreases s.len(),
{
    if s.len() > 0 && is_space(s[0]) {
        trim_left(s.skip(1))
    } else {
        s
    }
}

/// `s` with its trailing whitespace removed.
pub open spec fn trim_right(s: Seq<char>) -> Seq<char>
    decreases s.len(),
{
    if s.len() > 0 && is_space(s[s.len() - 1]) {
        trim_right(s.take(s.len() - 1))
    } else {
        s
    }
}

/// `s` with both leading and trailing whitespace removed.
pub open spec fn trim_spec(s: Seq<char>) -> Seq<char> {
    trim_right(trim_left(s))
}

/// A sequence with no whitespace at either end (so trimming is the identity).
pub open spec fn is_trimmed(s: Seq<char>) -> bool {
    (s.len() > 0 ==> !is_space(s[0])) && (s.len() > 0 ==> !is_space(s[s.len() - 1]))
}

proof fn lemma_trim_left_skip(s: Seq<char>, k: int)
    requires
        0 <= k <= s.len(),
        forall|i: int| 0 <= i < k ==> is_space(s[i]),
        k < s.len() ==> !is_space(s[k]),
    ensures
        trim_left(s) == s.skip(k),
    decreases k,
{
    if k == 0 {
        if s.len() > 0 && is_space(s[0]) {
            assert(false);
        }
        assert(s.skip(0) =~= s);
    } else {
        assert(is_space(s[0]));
        let t = s.skip(1);
        assert(forall|i: int| 0 <= i < k - 1 ==> t[i] == s[i + 1] && is_space(s[i + 1]));
        lemma_trim_left_skip(t, k - 1);
        assert(t.skip(k - 1) =~= s.skip(k));
    }
}

proof fn lemma_trim_right_take(s: Seq<char>, k: int)
    requires
        0 <= k <= s.len(),
        forall|i: int| k <= i < s.len() ==> is_space(s[i]),
        k > 0 ==> !is_space(s[k - 1]),
    ensures
        trim_right(s) == s.take(k),
    decreases s.len() - k,
{
    if k == s.len() {
        assert(s.take(k) =~= s);
    } else {
        assert(is_space(s[s.len() - 1]));
        let t = s.take(s.len() - 1);
        assert(forall|i: int| k <= i < t.len() ==> t[i] == s[i] && is_space(s[i]));
        lemma_trim_right_take(t, k);
        assert(t.take(k) =~= s.take(k));
    }
}

proof fn lemma_trim_right_all_space(s: Seq<char>)
    requires
        forall|i: int| 0 <= i < s.len() ==> is_space(s[i]),
    ensures
        trim_right(s) =~= Seq::<char>::empty(),
    decreases s.len(),
{
    if s.len() > 0 {
        lemma_trim_right_all_space(s.take(s.len() - 1));
    }
}

/// Trimming a sequence that is already trimmed changes nothing.
pub proof fn lemma_trim_of_trimmed(s: Seq<char>)
    requires
        is_trimmed(s),
    ensures
        trim_spec(s) == s,
{
    if s.len() == 0 {
        assert(trim_left(s) == s);
        assert(trim_right(s) == s);
    } else {
        assert(trim_left(s) == s);
        assert(trim_right(s) == s);
    }
}

/// The result of a trim carries no whitespace at either end.
pub proof fn lemma_trim_is_trimmed(s: Seq<char>)
    ensures
        is_trimmed(trim_spec(s)),
{
    lemma_trim_left_first(s);
    let t = trim_left(s);
    lemma_trim_right_last(t);
    lemma_trim_right_first(t);
}

proof fn lemma_trim_left_first(s: Seq<char>)
    ensures
        trim_left(s).len() > 0 ==> !is_space(trim_left(s)[0]),
    decreases s.len(),
{
    if s.len() > 0 && is_space(s[0]) {
        lemma_trim_left_first(s.skip(1));
    }
}

proof fn lemma_trim_right_last(s: Seq<char>)
    ensures
        trim_right(s).len() > 0 ==> !is_space(trim_right(s)[trim_right(s).len() - 1]),
    decreases s.len(),
{
    if s.len() > 0 && is_space(s[s.len() - 1]) {
        lemma_trim_right_last(s.take(s.len() - 1));
    }
}

proof fn lemma_trim_right_first(s: Seq<char>)
    ensures
        trim_right(s).len() > 0 ==> trim_right(s)[0] == s[0],
    decreases s.len(),
{
    if s.len() > 0 && is_space(s[s.len() - 1]) {
        lemma_trim_right_first(s.take(s.len() - 1));
    }
}

/// The two-character marker `ab` stands at position `i` of `s`.
pub open spec fn pair_at(s: Seq<char>, a: char, b: char, i: int) -> bool {
    0 <= i && i + 2 <= s.len() && s[i] == a && s[i + 1] == b
}

/// The position of the first occurrence of the two-character marker `ab` in
/// `s`, if any.
pub open spec fn find_pair(s: Seq<char>, a: char, b: char) -> Option<int>
    decreases s.len(),
{
    if s.len() < 2 {
        None
    } else if s[0] == a && s[1] == b {
        Some(0)
    } else {
        match find_pair(s.skip(1), a, b) {
            Some(i) => Some(i + 1),
            None => None,
        }
    }
}

/// `find_pair` returns the least position of the marker, or `None` when the
/// marker does not occur.
pub proof fn lemma_find_pair(s: Seq<char>, a: char, b: char)
    ensures
        match find_pair(s, a, b) {
            Some(i) => pair_at(s, a, b, i) && forall|j: int| 0 <= j < i ==> !pair_at(s, a, b, j),
            None => forall|j: int| !pair_at(s, a, b, j),
        },
    decreases s.len(),
{
    if s.len() < 2 {
    } else if s[0] == a && s[1] == b {
    } else {
        let t = s.skip(1);
        lemma_find_pair(t, a, b);
        assert(forall|j: int|
            0 <= j < t.len() - 1 ==> #[trigger] t[j] == s[j + 1] && t[j + 1] == s[j + 2]);
        match find_pair(t, a, b) {
            Some(i) => {
                assert(pair_at(t, a, b, i));
                assert(pair_at(s, a, b, i + 1));
                assert forall|j: int| 0 <= j < i + 1 implies !pair_at(s, a, b, j) by {
                    if j == 0 {
                    } else {
                        assert(!pair_at(t, a, b, j - 1));
                    }
                }
            },
            None => {
                assert forall|j: int| true implies !pair_at(s, a, b, j) by {
                    if j == 0 {
                    } else if 1 <= j && j + 2 <= s.len() {
                        assert(!pair_at(t, a, b, j - 1));
                    }
                }
            },
        }
    }
}

/// Find the first occurrence of the two-character marker `ab` in `s`.
pub fn find_pair_str(s: &str, a: char, b: char) -> (r: Option<usize>)
    ensures
        match r {
            Some(i) => find_pair(s@, a, b) == Some(i as int),
            None => find_pair(s@, a, b) is None,
        },
{
    let n = s.unicode_len();
    if n < 2 {
        proof {
            lemma_find_pair(s@, a, b);
        }
        return None;
    }
    let mut i: usize = 0;
    while i + 1 < n
        invariant
            n == s@.len(),
            0 <= i,
            i + 1 <= n,
            forall|j: int| 0 <= j < i ==> !pair_at(s@, a, b, j),
        decreases n - i,
    {
        if s.get_char(i) == a && s.get_char(i + 1) == b {
            proof {
                lemma_find_pair(s@, a, b);
                assert(pair_at(s@, a, b, i as int));
                match find_pair(s@, a, b) {
                    Some(k) => {
                        assert(!(k < i)) by {
                            assert(pair_at(s@, a, b, k));
                        }
                        assert(!(i < k));
                    },
                    None => {
                        assert(false);
                    },
                }
            }
            return Some(i);
        }
        i = i + 1;
    }
    proof {
        lemma_find_pair(s@, a, b);
        match find_pair(s@, a, b) {
            Some(k) => {
                assert(pair_at(s@, a, b, k));
                assert(false);
            },
            None => {},
        }
    }
    None
}

/// Trim the whitespace from both ends of a string.
pub fn trim(s: &str) -> (r: String)
    ensures
        r@ == trim_spec(s@),
{
    let n = s.unicode_len();
    let mut lo: usize = 0;
    while lo < n && space_char(s.get_char(lo))
        invariant
            0 <= lo <= n,
            n == s@.len(),
            forall|i: int| 0 <= i < lo ==> is_space(s@[i]),
        decreases n - lo,
    {
        lo = lo + 1;
    }
    proof {
        lemma_trim_left_skip(s@, lo as int);
    }
    if lo == n {
        proof {
            assert(s@.skip(lo as int) =~= Seq::<char>::empty());
            lemma_trim_right_all_space(s@.skip(lo as int));
        }
        return String::new();
    }
    let mut hi: usize = n;
    while hi > lo && space_char(s.get_char(hi - 1))
        invariant
            lo <= hi <= n,
            n == s@.len(),
            lo < n,
            !is_space(s@[lo as int]),
            forall|i: int| hi <= i < n ==> is_space(s@[i]),
        decreases hi,
    {
        hi = hi - 1;
    }
    let r = s.substring_char(lo, hi).to_owned();
    proof {
        let t = s@.skip(lo as int);
        assert(forall|i: int| hi - lo <= i < t.len() ==> t[i] == s@[i + lo] && is_space(
            s@[i + lo],
        ));
        assert(hi > lo);
        assert(t[hi - lo - 1] == s@[hi - 1]);
        lemma_trim_right_take(t, hi - lo);
        assert(t.take(hi - lo) =~= s@.subrange(lo as int, hi as int));
    }
    r
}

/// Length of the maximal leading run of non-whitespace characters of `s`.
pub open spec fn run_len(s: Seq<char>) -> nat
    decreases s.len(),
{
    if s.len() == 0 || is_space(s[0]) {
        0
    } else {
        (1 + run_len(s.skip(1))) as nat
    }
}

/// Basic bounds and characterization of `run_len`.
pub proof fn lemma_run_len(s: Seq<char>)
    ensures
        run_len(s) <= s.len(),
        forall|i: int| 0 <= i < run_len(s) ==> !is_space(s[i]),
        run_len(s) < s.len() ==> is_space(s[run_len(s) as int]),
    decreases s.len(),
{
    if s.len() == 0 || is_space(s[0]) {
    } else {
        let t = s.skip(1);
        lemma_run_len(t);
        assert(forall|i: int| 0 <= i < t.len() ==> #[trigger] t[i] == s[i + 1]);
        assert forall|i: int| 0 <= i < run_len(s) implies !is_space(s[i]) by {
            if i > 0 {
                assert(t[i - 1] == s[i]);
                assert(!is_space(t[i - 1]));
            }
        }
    }
}

/// `run_len` is determined by the position of the first whitespace character.
pub proof fn lemma_run_len_eq(s: Seq<char>, k: int)
    requires
        0 <= k <= s.len(),
        forall|i: int| 0 <= i < k ==> !is_space(s[i]),
        k < s.len() ==> is_space(s[k]),
    ensures
        run_len(s) == k,
    decreases k,
{
    if k == 0 {
    } else {
        let t = s.skip(1);
        assert(forall|i: int| 0 <= i < t.len() ==> #[trigger] t[i] == s[i + 1]);
        lemma_run_len_eq(t, k - 1);
    }
}

/// The whitespace-separated tokens of `s`, in order.
pub open spec fn tokens_of(s: Seq<char>) -> Seq<Seq<char>>
    decreases s.len(),
    via tokens_of_dec
{
    if s.len() == 0 {
        Seq::empty()
    } else if is_space(s[0]) {
        tokens_of(s.skip(1))
    } else {
        seq![s.take(run_len(s) as int)] + tokens_of(s.skip(run_len(s) as int))
    }
}

#[via_fn]
proof fn tokens_of_dec(s: Seq<char>) {
    if s.len() > 0 && !is_space(s[0]) {
        lemma_run_len(s);
    }
}

/// The views of a vector of strings, as a sequence of character sequences.
pub open spec fn str_views(toks: Seq<String>) -> Seq<Seq<char>> {
    toks.map_values(|t: String| t@)
}

/// Split a string into its whitespace-separated tokens.
pub fn split_tokens(s: &str) -> (r: Vec<String>)
    ensures
        str_views(r@) == tokens_of(s@),
{
    let n = s.unicode_len();
    let mut out: Vec<String> = Vec::new();
    let mut i: usize = 0;
    proof {
        assert(s@.skip(0) =~= s@);
        assert(str_views(out@) =~= Seq::<Seq<char>>::empty());
        assert(str_views(out@) + tokens_of(s@.skip(0)) =~= tokens_of(s@));
    }
    while i < n
        invariant
            n == s@.len(),
            0 <= i <= n,
            tokens_of(s@) == str_views(out@) + tokens_of(s@.skip(i as int)),
        decreases n - i,
    {
        if space_char(s.get_char(i)) {
            proof {
                assert(s@.skip(i as int).skip(1) =~= s@.skip(i as int + 1));
            }
            i = i + 1;
        } else {
            let start = i;
            let mut j = i + 1;
            while j < n && !space_char(s.get_char(j))
                invariant
                    n == s@.len(),
                    start < j <= n,
                    forall|m: int| start <= m < j ==> !is_space(s@[m]),
                decreases n - j,
            {
                j = j + 1;
            }
            let tok = s.substring_char(start, j).to_owned();
            proof {
                let t = s@.skip(start as int);
                assert(forall|m: int| 0 <= m < t.len() ==> #[trigger] t[m] == s@[m + start]);
                lemma_run_len_eq(t, j - start);
                assert(t.take(j - start) =~= s@.subrange(start as int, j as int));
                assert(t.skip(j - start) =~= s@.skip(j as int));
                assert(tokens_of(t) == seq![tok@] + tokens_of(s@.skip(j as int)));
                assert(str_views(out@.push(tok)) =~= str_views(out@).push(tok@));
                assert(str_views(out@) + (seq![tok@] + tokens_of(s@.skip(j as int)))
                    =~= str_views(out@).push(tok@) + tokens_of(s@.skip(j as int)));
            }
            out.push(tok);
            i = j;
        }
    }
    proof {
        assert(s@.skip(n as int) =~= Seq::<char>::empty());
        assert(str_views(out@) + tokens_of(s@.skip(n as int)) =~= str_views(out@));
    }
    out
}

/// An ASCII decimal digit.
pub open spec fn is_digit(c: char) -> bool {
    48 <= c as u32 <= 57
}

/// The numeric value of a digit character.
pub open spec fn digit_val(c: char) -> int {
    c as u32 - 48
}

/// Every character of `s` is a decimal digit.
pub open spec fn all_digits(s: Seq<char>) -> bool {
    forall|i: int| 0 <= i < s.len() ==> is_digit(s[i])
}

/// The value of a digit string read in base ten.
pub open spec fn dec_val(s: Seq<char>) -> int
    decreases s.len(),
{
    if s.len() == 0 {
        0
    } else {
        dec_val(s.take(s.len() - 1)) * 10 + digit_val(s[s.len() - 1])
    }
}

/// The value of a digit string is non-negative, and extending a digit string
/// never decreases its value.
pub proof fn lemma_dec_val_bounds(s: Seq<char>)
    requires
        all_digits(s),
    ensures
        dec_val(s) >= 0,
        forall|k: int| 0 <= k <= s.len() ==> #[trigger] dec_val(s.take(k)) <= dec_val(s),
    decreases s.len(),
{
    if s.len() == 0 {
        assert forall|k: int| 0 <= k <= s.len() implies #[trigger] dec_val(s.take(k)) <= dec_val(
            s,
        ) by {
            assert(s.take(k) =~= s);
        }
    } else {
        let t = s.take(s.len() - 1);
        assert(all_digits(t));
        lemma_dec_val_bounds(t);
        assert(is_digit(s[s.len() - 1]));
        assert(dec_val(s) >= dec_val(t) * 10 >= dec_val(t));
        assert forall|k: int| 0 <= k <= s.len() implies #[trigger] dec_val(s.take(k)) <= dec_val(
            s,
        ) by {
            if k == s.len() {
                assert(s.take(k) =~= s);
            } else {
                assert(s.take(k) =~= t.take(k));
                assert(dec_val(t.take(k)) <= dec_val(t));
            }
        }
    }
}

/// The value of a parsed unsigned 32-bit field: an optional `+` sign, then
/// one or more decimal digits whose value fits.
pub open spec fn parsed_u32(s: Seq<char>) -> Option<u32> {
    let body = if s.len() > 0 && s[0] == '+' {
        s.skip(1)
    } else {
        s
    };
    if body.len() > 0 && all_digits(body) && dec_val(body) <= u32::MAX {
        Some(dec_val(body) as u32)
    } else {
        None
    }
}

/// The value of a parsed unsigned 8-bit field.
pub open spec fn parsed_u8(s: Seq<char>) -> Option<u8> {
    let body = if s.len() > 0 && s[0] == '+' {
        s.skip(1)
    } else {
        s
    };
    if body.len() > 0 && all_digits(body) && dec_val(body) <= u8::MAX {
        Some(dec_val(body) as u8)
    } else {
        None
    }
}

/// The value of a parsed unsigned size field.
pub open spec fn parsed_usize(s: Seq<char>) -> Option<usize> {
    let body = if s.len() > 0 && s[0] == '+' {
        s.skip(1)
    } else {
        s
    };
    if body.len() > 0 && all_digits(body) && dec_val(body) <= usize::MAX {
        Some(dec_val(body) as usize)
    } else {
        None
    }
}

/// The value of a parsed signed 32-bit field: an optional `+` or `-` sign,
/// then one or more decimal digits whose value fits.
pub open spec fn parsed_i32(s: Seq<char>) -> Option<i32> {
    if s.len() > 0 && s[0] == '-' {
        let body = s.skip(1);
        if body.len() > 0 && all_digits(body) && dec_val(body) <= 0x8000_0000 {
            Some((-dec_val(body)) as i32)
        } else {
            None
        }
    } else {
        let body = if s.len() > 0 && s[0] == '+' {
            s.skip(1)
        } else {
            s
        };
        if body.len() > 0 && all_digits(body) && dec_val(body) <= i32::MAX {
            Some(dec_val(body) as i32)
        } else {
            None
        }
    }
}

/// Read the digits of `s` from position `from` on, in base ten, refusing an
/// empty digit run, a non-digit, or a value above `bound`.
fn parse_digits(s: &str, from: usize, bound: u64) -> (r: Option<u64>)
    requires
        from <= s@.len(),
        9 <= bound,
    ensures
        ({
            let body = s@.skip(from as int);
            match r {
                Some(v) => body.len() > 0 && all_digits(body) && dec_val(body) == v && v <= bound,
                None => body.len() == 0 || !all_digits(body) || dec_val(body) > bound,
            }
        }),
{
    let ghost body = s@.skip(from as int);
    let n = s.unicode_len();
    if from == n {
        return None;
    }
    let mut acc: u64 = 0;
    let mut i: usize = from;
    while i < n
        invariant
            from <= i <= n,
            n == s@.len(),
            body == s@.skip(from as int),
            body.len() == n - from,
            forall|m: int| 0 <= m < body.len() ==> #[trigger] body[m] == s@[m + from],
            all_digits(body.take(i - from)),
            acc == dec_val(body.take(i - from)),
            acc <= bound,
            9 <= bound,
        decreases n - i,
    {
        let c = s.get_char(i);
        let cv = c as u32;
        proof {
            assert(body[i - from] == s@[i as int]);
        }
        if cv < 48 || cv > 57 {
            proof {
                assert(!is_digit(body[i - from]));
            }
            return None;
        }
        let d: u64 = (cv - 48) as u64;
        proof {
            assert(body.take(i - from + 1) =~= body.take(i - from).push(body[i - from]));
            assert(body.take(i - from + 1).take(i - from) =~= body.take(i - from));
            assert(dec_val(body.take(i - from + 1)) == acc * 10 + d);
        }
        if acc > (bound - d) / 10 {
            proof {
                let ext = body.take(i - from + 1);
                assert(acc * 10 + d > bound) by {
                    assert(acc >= (bound - d) / 10 + 1);
                    assert(((bound - d) / 10 + 1) * 10 == ((bound - d) / 10) * 10 + 10);
                    assert(((bound - d) / 10) * 10 + 10 > bound - d) by {
                        assert(((bound - d) as u64 / 10) * 10 + (bound - d) as u64 % 10 == (bound
                            - d) as u64);
                    };
                    assert(acc * 10 >= ((bound - d) / 10 + 1) * 10) by (nonlinear_arith)
                        requires
                            acc >= (bound - d) / 10 + 1,
                    ;
                }
                if all_digits(body) {
                    lemma_dec_val_bounds(body);
                    assert(dec_val(ext) <= dec_val(body));
                }
            }
            return None;
        }
        proof {
            assert(acc * 10 + d <= bound) by {
                assert(acc <= (bound - d) / 10);
                assert(acc * 10 <= ((bound - d) / 10) * 10) by (nonlinear_arith)
                    requires
                        acc <= (bound - d) / 10,
                ;
                assert(((bound - d) / 10) * 10 <= bound - d) by {
                    assert(((bound - d) as u64 / 10) * 10 + (bound - d) as u64 % 10 == (bound
                        - d) as u64);
                };
            }
        }
        acc = acc * 10 + d;
        i = i + 1;
    }
    proof {
        assert(body.take(i - from) =~= body);
    }
    Some(acc)
}

/// Parse a token as an unsigned 32-bit number, as a decimal numeral with an
/// optional leading `+`.
pub fn parse_u32(s: &str) -> (r: Option<u32>)
    ensures
        r == parsed_u32(s@),
{
    let n = s.unicode_len();
    let from: usize = if n > 0 && s.get_char(0) == '+' {
        1
    } else {
        0
    };
    proof {
        if !(n > 0 && s@[0] == '+') {
            assert(s@.skip(0) =~= s@);
        }
    }
    match parse_digits(s, from, 0xffff_ffff) {
        Some(v) => Some(v as u32),
        None => None,
    }
}

/// Parse a token as an unsigned 8-bit number, as a decimal numeral with an
/// optional leading `+`.
pub fn parse_u8(s: &str) -> (r: Option<u8>)
    ensures
        r == parsed_u8(s@),
{
    let n = s.unicode_len();
    let from: usize = if n > 0 && s.get_char(0) == '+' {
        1
    } else {
        0
    };
    proof {
        if !(n > 0 && s@[0] == '+') {
            assert(s@.skip(0) =~= s@);
        }
    }
    match parse_digits(s, from, 255) {
        Some(v) => Some(v as u8),
        None => None,
    }
}

/// Parse a token as an unsigned size, as a decimal numeral with an optional
/// leading `+`.
pub fn parse_usize(s: &str) -> (r: Option<usize>)
    ensures
        r == parsed_usize(s@),
{
    let n = s.unicode_len();
    let from: usize = if n > 0 && s.get_char(0) == '+' {
        1
    } else {
        0
    };
    proof {
        if !(n > 0 && s@[0] == '+') {
            assert(s@.skip(0) =~= s@);
        }
    }
    match parse_digits(s, from, usize::MAX as u64) {
        Some(v) => Some(v as usize),
        None => None,
    }
}

/// Parse a token as a signed 32-bit number, as a decimal numeral with an
/// optional leading `+` or `-`.
pub fn parse_i32(s: &str) -> (r: Option<i32>)
    ensures
        r == parsed_i32(s@),
{
    let n = s.unicode_len();
    if n > 0 && s.get_char(0) == '-' {
        match parse_digits(s, 1, 0x8000_0000) {
            Some(v) => {
                if v == 0x8000_0000 {
                    Some(i32::MIN)
                } else {
                    Some(-(v as i32))
                }
            },
            None => None,
        }
    } else {
        let from: usize = if n > 0 && s.get_char(0) == '+' {
            1
        } else {
            0
        };
        proof {
            if !(n > 0 && s@[0] == '+') {
                assert(s@.skip(0) =~= s@);
            }
        }
        match parse_digits(s, from, 0x7fff_ffff) {
            Some(v) => Some(v as i32),
            None => None,
        }
    }
}

/// `s` with its leading double-quote characters removed.
pub open spec fn strip_quotes_left(s: Seq<char>) -> Seq<char>
    decreases s.len(),
{
    if s.len() > 0 && s[0] == '"' {
        strip_quotes_left(s.skip(1))
    } else {
        s
    }
}

/// `s` with its trailing double-quote characters removed.
pub open spec fn strip_quotes_right(s: Seq<char>) -> Seq<char>
    decreases s.len(),
{
    if s.len() > 0 && s[s.len() - 1] == '"' {
        strip_quotes_right(s.take(s.len() - 1))
    } else {
        s
    }
}

/// `s` with the double-quote characters at both ends removed.
pub open spec fn quote_trimmed(s: Seq<char>) -> Seq<char> {
    strip_quotes_right(strip_quotes_left(s))
}

proof fn lemma_sq_left_skip(s: Seq<char>, k: int)
    requires
        0 <= k <= s.len(),
        forall|i: int| 0 <= i < k ==> s[i] == '"',
        k < s.len() ==> s[k] != '"',
    ensures
        strip_quotes_left(s) == s.skip(k),
    decreases k,
{
    if k == 0 {
        if s.len() > 0 && s[0] == '"' {
            assert(false);
        }
        assert(s.skip(0) =~= s);
    } else {
        assert(s[0] == '"');
        let t = s.skip(1);
        assert(forall|i: int| 0 <= i < k - 1 ==> #[trigger] t[i] == s[i + 1]);
        lemma_sq_left_skip(t, k - 1);
        assert(t.skip(k - 1) =~= s.skip(k));
    }
}

proof fn lemma_sq_right_take(s: Seq<char>, k: int)
    requires
        0 <= k <= s.len(),
        forall|i: int| k <= i < s.len() ==> s[i] == '"',
        k > 0 ==> s[k - 1] != '"',
    ensures
        strip_quotes_right(s) == s.take(k),
    decreases s.len() - k,
{
    if k == s.len() {
        assert(s.take(k) =~= s);
    } else {
        assert(s[s.len() - 1] == '"');
        let t = s.take(s.len() - 1);
        assert(forall|i: int| k <= i < t.len() ==> t[i] == s[i]);
        lemma_sq_right_take(t, k);
        assert(t.take(k) =~= s.take(k));
    }
}

/// Remove the double-quote characters at both ends of a string.
pub fn strip_quotes(s: &str) -> (r: String)
    ensures
        r@ == quote_trimmed(s@),
{
    let n = s.unicode_len();
    let mut lo: usize = 0;
    while lo < n && s.get_char(lo) == '"'
        invariant
            0 <= lo <= n,
            n == s@.len(),
            forall|i: int| 0 <= i < lo ==> s@[i] == '"',
        decreases n - lo,
    {
        lo = lo + 1;
    }
    proof {
        lemma_sq_left_skip(s@, lo as int);
    }
    if lo == n {
        proof {
            assert(s@.skip(lo as int) =~= Seq::<char>::empty());
        }
        return String::new();
    }
    let mut hi: usize = n;
    while hi > lo && s.get_char(hi - 1) == '"'
        invariant
            lo <= hi <= n,
            n == s@.len(),
            lo < n,
            s@[lo as int] != '"',
            forall|i: int| hi <= i < n ==> s@[i] == '"',
        decreases hi,
    {
        hi = hi - 1;
    }
    let r = s.substring_char(lo, hi).to_owned();
    proof {
        let t = s@.skip(lo as int);
        assert(forall|i: int| 0 <= i < t.len() ==> #[trigger] t[i] == s@[i + lo]);
        assert(hi > lo);
        assert(t[hi - lo - 1] == s@[hi - 1]);
        lemma_sq_right_take(t, hi - lo);
        assert(t.take(hi - lo) =~= s@.subrange(lo as int, hi as int));
    }
    r
}

/// Read token `i` as an unsigned 32-bit number; `None` when the token is
/// absent or malformed.  The caller supplies the field's own error at the
/// use site.
pub fn token_u32(toks: &Vec<String>, i: usize) -> (r: Option<u32>)
    ensures
        r == if i < toks@.len() {
            parsed_u32(toks@[i as int]@)
        } else {
            None::<u32>
        },
{
    if i < toks.len() {
        parse_u32(toks[i].as_str())
    } else {
        None
    }
}

/// Read token `i` as a signed 32-bit number; `None` when the token is absent
/// or malformed.
pub fn token_i32(toks: &Vec<String>, i: usize) -> (r: Option<i32>)
    ensures
        r == if i < toks@.len() {
            parsed_i32(toks@[i as int]@)
        } else {
            None::<i32>
        },
{
    if i < toks.len() {
        parse_i32(toks[i].as_str())
    } else {
        None
    }
}

/// Read token `i` as an unsigned 8-bit number; `None` when the token is
/// absent or malformed.
pub fn token_u8(toks: &Vec<String>, i: usize) -> (r: Option<u8>)
    ensures
        r == if i < toks@.len() {
            parsed_u8(toks@[i as int]@)
        } else {
            None::<u8>
        },
{
    if i < toks.len() {
        parse_u8(toks[i].as_str())
    } else {
        None
    }
}

} // verus!
