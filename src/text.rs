use vstd::prelude::*;
use vstd::std_specs::iter::IteratorSpec;
use vstd::string::*;

verus! {

/// Unicode's White_Space property: the characters that `char::is_whitespace`,
/// `str::trim` and `str::split_whitespace` treat as blank.
pub open spec fn is_ws(c: char) -> bool {
    ('\u{9}' <= c && c <= '\u{d}') || c == ' ' || c == '\u{85}' || c == '\u{a0}'
        || c == '\u{1680}' || ('\u{2000}' <= c && c <= '\u{200a}') || c == '\u{2028}'
        || c == '\u{2029}' || c == '\u{202f}' || c == '\u{205f}' || c == '\u{3000}'
}

/// A line is blank when nothing but whitespace is left after trimming.
pub open spec fn is_blank(s: Seq<char>) -> bool {
    forall|i: int| 0 <= i < s.len() ==> is_ws(#[trigger] s[i])
}

/// The maximal runs of non-whitespace characters of `s`, left to right.
/// Defined by extending the split of `s` without its last character.
pub open spec fn split_ws(s: Seq<char>) -> Seq<Seq<char>>
    decreases s.len(),
{
    if s.len() == 0 {
        seq![]
    } else {
        let prev = split_ws(s.drop_last());
        let c = s.last();
        if is_ws(c) {
            prev
        } else if s.len() >= 2 && !is_ws(s[s.len() - 2]) {
            prev.drop_last().push(prev.last().push(c))
        } else {
            prev.push(seq![c])
        }
    }
}

/// A line is blank exactly when it has no tokens.
pub proof fn lemma_blank_iff_no_tokens(s: Seq<char>)
    ensures
        is_blank(s) <==> split_ws(s).len() == 0,
    decreases s.len(),
{
    if s.len() > 0 {
        let p = s.drop_last();
        lemma_blank_iff_no_tokens(p);
        if is_ws(s.last()) {
            if is_blank(p) {
                assert forall|i: int| 0 <= i < s.len() implies is_ws(#[trigger] s[i]) by {
                    if i < p.len() {
                        assert(s[i] == p[i]);
                    }
                }
            } else {
                let k = choose|k: int| 0 <= k < p.len() && !is_ws(#[trigger] p[k]);
                assert(s[k] == p[k]);
            }
        } else {
            assert(!is_ws(s[s.len() - 1]));
            if s.len() >= 2 && !is_ws(s[s.len() - 2]) {
                assert(p[p.len() - 1] == s[s.len() - 2]);
            }
        }
    }
}

/// A line with its terminator removed: a final `\n`, and a `\r` just before it.
pub open spec fn strip_line_end(raw: Seq<char>) -> Seq<char> {
    if raw.len() > 0 && raw.last() == '\n' {
        let t = raw.drop_last();
        if t.len() > 0 && t.last() == '\r' {
            t.drop_last()
        } else {
            t
        }
    } else {
        raw
    }
}

pub open spec fn is_digit(c: char) -> bool {
    '0' <= c && c <= '9'
}

/// The number written by the decimal digits `d`.
pub open spec fn digits_value(d: Seq<char>) -> int
    decreases d.len(),
{
    if d.len() == 0 {
        0
    } else {
        digits_value(d.drop_last()) * 10 + (d.last() as int - '0' as int)
    }
}

/// The text of an unsigned number: an optional `+`, then decimal digits.
pub open spec fn unsigned_digits(t: Seq<char>) -> Seq<char> {
    if t.len() > 0 && t[0] == '+' {
        t.drop_first()
    } else {
        t
    }
}

/// What reading `t` as a `u64` gives: `None` for an empty or non-decimal text,
/// or for a value above `u64::MAX`.
pub open spec fn parse_u64_spec(t: Seq<char>) -> Option<u64> {
    let d = unsigned_digits(t);
    if d.len() > 0 && (forall|i: int| 0 <= i < d.len() ==> is_digit(#[trigger] d[i]))
        && digits_value(d) <= u64::MAX {
        Some(digits_value(d) as u64)
    } else {
        None
    }
}

/// The characters of `s`, in order.
pub fn chars_of(s: &str) -> (r: Vec<char>)
    ensures
        r@ == s@,
{
    let mut r: Vec<char> = Vec::new();
    for c in it: s.chars()
        invariant
            r@ == it.seq().take(it.index() as int),
    {
        r.push(c);
    }
    r
}

pub fn is_ws_char(c: char) -> (r: bool)
    ensures
        r == is_ws(c),
{
    ('\u{9}' <= c && c <= '\u{d}') || c == ' ' || c == '\u{85}' || c == '\u{a0}'
        || c == '\u{1680}' || ('\u{2000}' <= c && c <= '\u{200a}') || c == '\u{2028}'
        || c == '\u{2029}' || c == '\u{202f}' || c == '\u{205f}' || c == '\u{3000}'
}

/// Whether a line holds only whitespace.
pub fn line_is_blank(s: &str) -> (r: bool)
    ensures
        r == is_blank(s@),
{
    let cs = chars_of(s);
    let mut i: usize = 0;
    while i < cs.len()
        invariant
            i <= cs.len(),
            cs@ == s@,
            forall|k: int| 0 <= k < i ==> is_ws(#[trigger] s@[k]),
        decreases cs.len() - i,
    {
        if !is_ws_char(cs[i]) {
            return false;
        }
        i = i + 1;
    }
    true
}

/// The whitespace-separated tokens of `s`, as strings.
pub fn split_tokens(s: &str) -> (r: Vec<String>)
    ensures
        r@.len() == split_ws(s@).len(),
        forall|k: int| 0 <= k < r@.len() ==> (#[trigger] r@[k])@ == split_ws(s@)[k],
{
    let cs = chars_of(s);
    let mut r: Vec<String> = Vec::new();
    let ghost mut toks: Seq<Seq<char>> = seq![];
    let mut start: usize = 0;
    let mut in_token: bool = false;
    let mut i: usize = 0;
    while i < cs.len()
        invariant
            i <= cs.len(),
            cs@ == s@,
            start <= i,
            r@.len() == toks.len(),
            forall|k: int| 0 <= k < r@.len() ==> (#[trigger] r@[k])@ == toks[k],
            in_token <==> (i > 0 && !is_ws(s@[i - 1])),
            in_token ==> start < i && split_ws(s@.take(i as int)) == toks.push(
                s@.subrange(start as int, i as int),
            ),
            !in_token ==> split_ws(s@.take(i as int)) == toks,
        decreases cs.len() - i,
    {
        let c = cs[i];
        let ghost pre = s@.take(i as int);
        let ghost cur = s@.take(i + 1);
        assert(cur.drop_last() == pre);
        assert(cur.last() == c);
        if is_ws_char(c) {
            if in_token {
                let tok = String::from_str(s.substring_char(start, i));
                r.push(tok);
                proof {
                    toks = toks.push(s@.subrange(start as int, i as int));
                }
            }
            in_token = false;
        } else {
            if !in_token {
                start = i;
                in_token = true;
                assert(s@.subrange(start as int, i + 1) == seq![c]);
            } else {
                assert(cur[i - 1] == s@[i - 1]);
                assert(s@.subrange(start as int, i + 1) == s@.subrange(start as int, i as int).push(
                    c,
                ));
            }
        }
        i = i + 1;
    }
    if in_token {
        let tok = String::from_str(s.substring_char(start, i));
        r.push(tok);
        proof {
            toks = toks.push(s@.subrange(start as int, i as int));
        }
    }
    assert(s@.take(cs.len() as int) == s@);
    r
}

proof fn lemma_digits_value_prefix(d: Seq<char>, j: int)
    requires
        0 <= j <= d.len(),
        forall|i: int| 0 <= i < d.len() ==> is_digit(#[trigger] d[i]),
    ensures
        0 <= digits_value(d.take(j)) <= digits_value(d),
    decreases d.len(),
{
    if j == d.len() {
        assert(d.take(j) == d);
        if d.len() > 0 {
            lemma_digits_value_prefix(d.drop_last(), 0);
        }
    } else {
        let p = d.drop_last();
        assert(d.take(j) == p.take(j));
        lemma_digits_value_prefix(p, j);
        lemma_digits_value_prefix(p, p.len() as int);
        assert(p.take(p.len() as int) == p);
    }
}

/// Reads `t` as a `u64` as `str::parse::<u64>` does.
pub fn parse_u64(t: &str) -> (r: Option<u64>)
    ensures
        r == parse_u64_spec(t@),
{
    let cs = chars_of(t);
    let ghost d = unsigned_digits(t@);
    let mut i: usize = 0;
    if cs.len() > 0 && cs[0] == '+' {
        i = 1;
    }
    let off: usize = i;
    assert(d == t@.subrange(off as int, t@.len() as int));
    if i == cs.len() {
        return None;
    }
    let mut v: u64 = 0;
    while i < cs.len()
        invariant
            off <= i <= cs.len(),
            cs@ == t@,
            d == t@.subrange(off as int, t@.len() as int),
            d == unsigned_digits(t@),
            d.len() > 0,
            forall|k: int| 0 <= k < i - off ==> is_digit(#[trigger] d[k]),
            v == digits_value(d.take(i - off)),
        decreases cs.len() - i,
    {
        let c = cs[i];
        if !('0' <= c && c <= '9') {
            assert(!is_digit(d[i - off]));
            assert(!(forall|k: int| 0 <= k < d.len() ==> is_digit(#[trigger] d[k])));
            return None;
        }
        let dv: u64 = (c as u32 - '0' as u32) as u64;
        let ghost next = d.take(i - off + 1);
        assert(next.drop_last() == d.take(i - off));
        assert(next.last() == c);
        let m = v.checked_mul(10);
        let n = match m {
            Some(m) => m.checked_add(dv),
            None => None,
        };
        match n {
            Some(n) => {
                v = n;
            },
            None => {
                proof {
                    assert(digits_value(next) == v * 10 + dv);
                    assert(digits_value(next) > u64::MAX);
                    if forall|k: int| 0 <= k < d.len() ==> is_digit(#[trigger] d[k]) {
                        lemma_digits_value_prefix(d, i - off + 1);
                    }
                }
                return None;
            },
        }
        i = i + 1;
    }
    assert(d.take(d.len() as int) == d);
    Some(v)
}

/// Removes the line terminator, as `strip_line_end` states.
pub fn strip_line_end_of(raw: &str) -> (r: String)
    ensures
        r@ == strip_line_end(raw@),
{
    let n = raw.unicode_len();
    let mut end: usize = n;
    if n > 0 && raw.get_char(n - 1) == '\n' {
        end = n - 1;
        if end > 0 && raw.get_char(end - 1) == '\r' {
            end = end - 1;
        }
    }
    let r = String::from_str(raw.substring_char(0, end));
    proof {
        if n > 0 {
            assert(raw@.drop_last() == raw@.subrange(0, n - 1));
            if n > 1 {
                assert(raw@.drop_last().drop_last() == raw@.subrange(0, n - 2));
            }
        }
        assert(raw@.subrange(0, n as int) == raw@);
    }
    r
}

} // verus!
