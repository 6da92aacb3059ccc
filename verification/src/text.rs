//! Text as sequences of characters: whitespace, substrings, prefixes,
//! splitting into runs, decimal numbers, and the case mappings of std.
use vstd::prelude::*;
use vstd::utf8::{encode_scalar, encode_utf8};

verus! {

/// The characters of `s`, in order.
pub fn chars_of(s: &str) -> (r: Vec<char>)
    ensures
        r@ == s@,
{
    let mut r: Vec<char> = Vec::new();
    for c in it: s.chars()
        invariant
            r@ == it.seq().take(it.index() as int),
    {
        r.push(c);
    }
    r
}

/// Appends one character with `String::push`.
#[verifier::external_body]
pub(crate) fn push_char(s: &mut String, c: char)
    ensures
        final(s)@ == old(s)@.push(c),
{
    s.push(c);
}

/// The string made of the characters `cs`.
pub fn string_of(cs: &Vec<char>) -> (r: String)
    ensures
        r@ == cs@,
{
    let mut r = String::new();
    let mut i: usize = 0;
    while i < cs.len()
        invariant
            i <= cs@.len(),
            r@ == cs@.take(i as int),
        decreases cs@.len() - i,
    {
        push_char(&mut r, cs[i]);
        i = i + 1;
        proof { assert(r@ =~= cs@.take(i as int)); }
    }
    proof { assert(cs@.take(cs@.len() as int) =~= cs@); }
    r
}

/// The characters with the Unicode property White_Space, as
/// `char::is_whitespace` documents them.
pub open spec fn is_white(c: char) -> bool {
    let u = c as u32;
    ||| 0x9 <= u <= 0xD
    ||| u == 0x20
    ||| u == 0x85
    ||| u == 0xA0
    ||| u == 0x1680
    ||| 0x2000 <= u <= 0x200A
    ||| u == 0x2028
    ||| u == 0x2029
    ||| u == 0x202F
    ||| u == 0x205F
    ||| u == 0x3000
}

/// Whether `c` is white space.
pub fn is_whitespace_char(c: char) -> (r: bool)
    ensures
        r == is_white(c),
{
    let u = c as u32;
    (0x9 <= u && u <= 0xD) || u == 0x20 || u == 0x85 || u == 0xA0 || u == 0x1680 || (0x2000 <= u
        && u <= 0x200A) || u == 0x2028 || u == 0x2029 || u == 0x202F || u == 0x205F || u == 0x3000
}

/// `p` occurs in `h` as a contiguous piece (the empty text occurs everywhere).
pub open spec fn contains_seq(h: Seq<char>, p: Seq<char>) -> bool {
    exists|i: int| 0 <= i && i + p.len() <= h.len() && #[trigger] h.subrange(i, i + p.len()) == p
}

/// Whether `p` occurs at position `i` of `h`.
fn occurs_at(h: &Vec<char>, p: &Vec<char>, i: usize) -> (r: bool)
    requires
        i + p@.len() <= h@.len(),
    ensures
        r == (h@.subrange(i as int, i + p@.len()) == p@),
{
    let hl = h.len();
    let mut k: usize = 0;
    while k < p.len()
        invariant
            hl == h@.len(),
            i + p@.len() <= h@.len(),
            k <= p@.len(),
            forall|m: int| 0 <= m < k ==> h@[i + m] == p@[m],
        decreases p@.len() - k,
    {
        if h[i + k] != p[k] {
            proof {
                assert(h@.subrange(i as int, i + p@.len())[k as int] != p@[k as int]);
            }
            return false;
        }
        k = k + 1;
    }
    proof {
        assert(h@.subrange(i as int, i + p@.len()) =~= p@);
    }
    true
}

/// Whether `p` occurs in `h`.
pub fn seq_contains(h: &Vec<char>, p: &Vec<char>) -> (r: bool)
    ensures
        r == contains_seq(h@, p@),
{
    if p.len() == 0 {
        proof { assert(h@.subrange(0, 0 + p@.len() as int) =~= p@); }
        return true;
    }
    if p.len() > h.len() {
        return false;
    }
    let hl = h.len();
    let last = hl - p.len();
    let mut i: usize = 0;
    while i <= last
        invariant
            hl == h@.len(),
            last == h@.len() - p@.len(),
            last < h@.len(),
            p@.len() <= h@.len(),
            i <= last + 1,
            forall|j: int| 0 <= j < i ==> #[trigger] h@.subrange(j, j + p@.len()) != p@,
        decreases last + 1 - i,
    {
        if occurs_at(h, p, i) {
            return true;
        }
        i = i + 1;
    }
    false
}

/// Whether `p` occurs in `h`, as `str::contains` answers it.
pub fn text_contains(h: &str, p: &str) -> (r: bool)
    ensures
        r == contains_seq(h@, p@),
{
    let hc = chars_of(h);
    let pc = chars_of(p);
    seq_contains(&hc, &pc)
}

/// The first position, from `i` on, where `p` occurs in `s`.
pub open spec fn find_from(s: Seq<char>, p: Seq<char>, i: int) -> Option<int>
    decreases s.len() + 1 - i,
{
    if i < 0 || i + p.len() > s.len() {
        None
    } else if s.subrange(i, i + p.len()) == p {
        Some(i)
    } else {
        find_from(s, p, i + 1)
    }
}

/// What `find_from` answers is a position from `i` on where `p` occurs,
/// before which it does not occur.
pub proof fn lemma_find_from(s: Seq<char>, p: Seq<char>, i: int)
    ensures
        match find_from(s, p, i) {
            Some(k) => 0 <= i <= k && k + p.len() <= s.len() && s.subrange(k, k + p.len()) == p
                && forall|j: int| i <= j < k ==> #[trigger] s.subrange(j, j + p.len()) != p,
            None => forall|j: int|
                0 <= i <= j && j + p.len() <= s.len() ==> #[trigger] s.subrange(j, j + p.len())
                    != p,
        },
    decreases s.len() + 1 - i,
{
    if i < 0 || i + p.len() > s.len() {
    } else if s.subrange(i, i + p.len()) == p {
    } else {
        lemma_find_from(s, p, i + 1);
    }
}

/// The first position where `p` occurs in `s`, as `str::find` answers it
/// (counted in characters).
pub fn find_seq(h: &Vec<char>, p: &Vec<char>) -> (r: Option<usize>)
    ensures
        match r {
            Some(i) => find_from(h@, p@, 0) == Some(i as int),
            None => find_from(h@, p@, 0) is None,
        },
{
    if p.len() > h.len() {
        return None;
    }
    if p.len() == 0 {
        proof { assert(h@.subrange(0, 0) =~= p@); }
        return Some(0);
    }
    let hl = h.len();
    let last = hl - p.len();
    let mut i: usize = 0;
    while i <= last
        invariant
            hl == h@.len(),
            last == h@.len() - p@.len(),
            0 < p@.len() <= h@.len(),
            i <= last + 1,
            find_from(h@, p@, 0) == find_from(h@, p@, i as int),
        decreases last + 1 - i,
    {
        if occurs_at(h, p, i) {
            return Some(i);
        }
        i = i + 1;
    }
    None
}

/// The characters of `v` from `from` up to `to`.
pub fn sub_chars(v: &Vec<char>, from: usize, to: usize) -> (r: Vec<char>)
    requires
        from <= to <= v@.len(),
    ensures
        r@ == v@.subrange(from as int, to as int),
{
    let mut r: Vec<char> = Vec::new();
    let mut i: usize = from;
    while i < to
        invariant
            from <= i <= to <= v@.len(),
            r@ == v@.subrange(from as int, i as int),
        decreases to - i,
    {
        r.push(v[i]);
        i = i + 1;
        proof { assert(r@ =~= v@.subrange(from as int, i as int)); }
    }
    r
}

/// A text takes at least one and at most four bytes per character in UTF-8.
pub proof fn lemma_utf8_len(s: Seq<char>)
    ensures
        s.len() <= encode_utf8(s).len() <= 4 * s.len(),
    decreases s.len(),
{
    if s.len() > 0 {
        lemma_utf8_len(s.drop_first());
        let b = encode_scalar(s[0] as u32);
        assert(1 <= b.len() <= 4);
    }
}

/// `s` begins with `p`.
pub open spec fn has_prefix(s: Seq<char>, p: Seq<char>) -> bool {
    p.len() <= s.len() && s.subrange(0, p.len() as int) == p
}

/// Whether `s` begins with `p`, as `str::starts_with` answers it.
pub fn text_starts_with(s: &str, p: &str) -> (r: bool)
    ensures
        r == has_prefix(s@, p@),
{
    let sc = chars_of(s);
    let pc = chars_of(p);
    if pc.len() > sc.len() {
        return false;
    }
    occurs_at(&sc, &pc, 0)
}

/// The lowercase form of a text, as `str::to_lowercase` gives it (Unicode's
/// Lowercase mapping, which may change the length of the text).
pub uninterp spec fn lowercase(s: Seq<char>) -> Seq<char>;

/// The uppercase form of a text, as `str::to_uppercase` gives it.
pub uninterp spec fn uppercase(s: Seq<char>) -> Seq<char>;

/// `str::to_lowercase`: the result is named by `lowercase`, not spelled out;
/// std maps each character to one or more characters, so the result is empty
/// exactly when the text is.
#[verifier::external_body]
pub(crate) fn to_lowercase(s: &str) -> (r: String)
    ensures
        r@ == lowercase(s@),
        r@.len() == 0 <==> s@.len() == 0,
{
    s.to_lowercase()
}

/// `str::to_uppercase`: the result is named by `uppercase`, not spelled out.
#[verifier::external_body]
pub(crate) fn to_uppercase(s: &str) -> (r: String)
    ensures
        r@ == uppercase(s@),
{
    s.to_uppercase()
}

/// A separator between runs: white space, and also ',' when asked.
pub open spec fn is_sep(c: char, with_comma: bool) -> bool {
    is_white(c) || (with_comma && c == ',')
}

/// `s[i..j]` is a maximal non-empty run of characters that are not
/// separators: what `split_whitespace` yields (and, with commas, what
/// splitting its pieces again at ',' yields, once empty pieces are dropped).
pub open spec fn is_run(s: Seq<char>, i: int, j: int, with_comma: bool) -> bool {
    &&& 0 <= i < j <= s.len()
    &&& forall|k: int| i <= k < j ==> !is_sep(#[trigger] s[k], with_comma)
    &&& (i == 0 || is_sep(s[i - 1], with_comma))
    &&& (j == s.len() || is_sep(s[j], with_comma))
}

/// `w` is one of the runs of `s`.
pub open spec fn is_run_of(s: Seq<char>, w: Seq<char>, with_comma: bool) -> bool {
    exists|i: int, j: int| #[trigger] is_run(s, i, j, with_comma) && s.subrange(i, j) == w
}

/// Whether `c` separates runs.
fn sep_char(c: char, with_comma: bool) -> (r: bool)
    ensures
        r == is_sep(c, with_comma),
{
    is_whitespace_char(c) || (with_comma && c == ',')
}

/// The runs of `s`: every element is a run, and every run is an element.
pub fn split_runs(s: &Vec<char>, with_comma: bool) -> (r: Vec<Vec<char>>)
    ensures
        forall|t: int| 0 <= t < r@.len() ==> is_run_of(s@, #[trigger] r@[t]@, with_comma),
        forall|i: int, j: int|
            #[trigger] is_run(s@, i, j, with_comma) ==> exists|t: int|
                0 <= t < r@.len() && #[trigger] r@[t]@ == s@.subrange(i, j),
{
    let n = s.len();
    let mut r: Vec<Vec<char>> = Vec::new();
    let mut cur: Vec<char> = Vec::new();
    let mut k: usize = 0;
    let mut st: usize = 0;
    while k < n
        invariant
            n == s@.len(),
            st <= k <= n,
            cur@ == s@.subrange(st as int, k as int),
            forall|m: int| st <= m < k ==> !is_sep(#[trigger] s@[m], with_comma),
            st == 0 || is_sep(s@[st - 1], with_comma),
            forall|t: int| 0 <= t < r@.len() ==> is_run_of(s@, #[trigger] r@[t]@, with_comma),
            forall|i: int, j: int|
                #[trigger] is_run(s@, i, j, with_comma) && j < st ==> exists|t: int|
                    0 <= t < r@.len() && #[trigger] r@[t]@ == s@.subrange(i, j),
        decreases n - k,
    {
        let c = s[k];
        if sep_char(c, with_comma) {
            let ghost old_r = r@;
            let ghost old_st = st as int;
            if cur.len() > 0 {
                proof {
                    assert(is_run(s@, st as int, k as int, with_comma));
                }
                r.push(cur);
            }
            proof {
                assert forall|t: int| 0 <= t < r@.len() implies is_run_of(
                    s@,
                    #[trigger] r@[t]@,
                    with_comma,
                ) by {
                    if t < old_r.len() {
                        assert(r@[t] == old_r[t]);
                    }
                }
                assert forall|i: int, j: int|
                    #[trigger] is_run(s@, i, j, with_comma) && j < k + 1 implies exists|t: int|
                    0 <= t < r@.len() && #[trigger] r@[t]@ == s@.subrange(i, j) by {
                    if j < old_st {
                        let t = choose|t: int|
                            0 <= t < old_r.len() && #[trigger] old_r[t]@ == s@.subrange(i, j);
                        assert(r@[t] == old_r[t]);
                    } else {
                        if j < k {
                            assert(!is_sep(s@[j], with_comma));
                        }
                        assert(j == k);
                        if i < old_st {
                            assert(!is_sep(s@[old_st - 1], with_comma));
                        }
                        if i > old_st {
                            assert(!is_sep(s@[i - 1], with_comma));
                        }
                        assert(i == old_st);
                        assert(r@[old_r.len() as int]@ == s@.subrange(i, j));
                    }
                }
            }
            cur = Vec::new();
            st = k + 1;
        } else {
            cur.push(c);
            proof {
                assert(cur@ =~= s@.subrange(st as int, k + 1));
            }
        }
        k = k + 1;
    }
    let ghost old_r = r@;
    if cur.len() > 0 {
        proof {
            assert(is_run(s@, st as int, n as int, with_comma));
        }
        r.push(cur);
    }
    proof {
        assert forall|t: int| 0 <= t < r@.len() implies is_run_of(
            s@,
            #[trigger] r@[t]@,
            with_comma,
        ) by {
            if t < old_r.len() {
                assert(r@[t] == old_r[t]);
            }
        }
        assert forall|i: int, j: int| #[trigger] is_run(s@, i, j, with_comma) implies exists|t: int|
            0 <= t < r@.len() && #[trigger] r@[t]@ == s@.subrange(i, j) by {
            if j < st {
                let t = choose|t: int|
                    0 <= t < old_r.len() && #[trigger] old_r[t]@ == s@.subrange(i, j);
                assert(r@[t] == old_r[t]);
            } else {
                if j < n {
                    assert(!is_sep(s@[j], with_comma));
                }
                if i < st {
                    assert(!is_sep(s@[st - 1], with_comma));
                }
                if i > st {
                    assert(!is_sep(s@[i - 1], with_comma));
                }
                assert(r@[old_r.len() as int]@ == s@.subrange(i, j));
            }
        }
    }
    r
}

/// The value of a text of decimal digits.
pub open spec fn decimal_value(s: Seq<char>) -> int
    decreases s.len(),
{
    if s.len() == 0 {
        0
    } else {
        decimal_value(s.drop_last()) * 10 + (s.last() as u32 - '0' as u32)
    }
}

/// A decimal digit.
pub open spec fn is_digit(c: char) -> bool {
    '0' as u32 <= c as u32 <= '9' as u32
}

/// What `str::parse::<usize>` gives: an optional '+', then at least one
/// decimal digit and nothing else, with a value that fits in `usize`.
pub open spec fn parsed_usize(s: Seq<char>) -> Option<usize> {
    parsed_usize_of_digits(
        if s.len() > 0 && s[0] == '+' {
            s.drop_first()
        } else {
            s
        },
    )
}

proof fn lemma_decimal_monotone(d: Seq<char>, i: int)
    requires
        0 <= i <= d.len(),
        forall|k: int| 0 <= k < d.len() ==> is_digit(#[trigger] d[k]),
    ensures
        decimal_value(d.take(i)) <= decimal_value(d),
        0 <= decimal_value(d.take(i)),
    decreases d.len() - i,
{
    if i < d.len() {
        lemma_decimal_monotone(d, i + 1);
        assert(d.take(i + 1).drop_last() =~= d.take(i));
        assert(is_digit(d[i]));
    } else {
        assert(d.take(i) =~= d);
        lemma_decimal_nonneg(d);
    }
}

proof fn lemma_decimal_nonneg(d: Seq<char>)
    requires
        forall|k: int| 0 <= k < d.len() ==> is_digit(#[trigger] d[k]),
    ensures
        0 <= decimal_value(d),
    decreases d.len(),
{
    if d.len() > 0 {
        assert(is_digit(d[d.len() - 1]));
        lemma_decimal_nonneg(d.drop_last());
    }
}

/// `str::parse::<usize>`, written out: `None` for every input the parse
/// refuses.
pub fn parse_usize(s: &str) -> (r: Option<usize>)
    ensures
        r == parsed_usize(s@),
{
    let cs = chars_of(s);
    let n = cs.len();
    let start: usize = if n > 0 && cs[0] == '+' {
        1
    } else {
        0
    };
    let ghost d = if s@.len() > 0 && s@[0] == '+' {
        s@.drop_first()
    } else {
        s@
    };
    proof {
        assert(d =~= cs@.subrange(start as int, n as int));
        assert(parsed_usize(s@) == parsed_usize_of_digits(d));
    }
    if start >= n {
        return None;
    }
    let mut value: usize = 0;
    let mut i: usize = start;
    while i < n
        invariant
            start <= i <= n,
            n == cs@.len(),
            d == cs@.subrange(start as int, n as int),
            parsed_usize(s@) == parsed_usize_of_digits(d),
            forall|k: int| 0 <= k < i - start ==> is_digit(#[trigger] d[k]),
            value as int == decimal_value(d.take(i - start)),
        decreases n - i,
    {
        let c = cs[i];
        let u = c as u32;
        if !(48 <= u && u <= 57) {
            proof {
                assert(d[i - start] == c);
                assert(!is_digit(d[i - start]));
                assert(parsed_usize(s@) == parsed_usize_of_digits(d));
            }
            return None;
        }
        let digit = (u - 48) as usize;
        proof {
            assert(d[i - start] == c);
            assert(d.take(i - start + 1).drop_last() =~= d.take(i - start));
        }
        match value.checked_mul(10) {
            Some(v10) => match v10.checked_add(digit) {
                Some(v) => {
                    value = v;
                },
                None => {
                    proof {
                        assert(is_digit(d[i - start]));
                        assert(decimal_value(d.take(i - start + 1)) == value * 10 + digit);
                        overflow_stays(d, i - start + 1);
                        assert(parsed_usize(s@) == parsed_usize_of_digits(d));
                    }
                    return None;
                },
            },
            None => {
                proof {
                    assert(is_digit(d[i - start]));
                    assert(decimal_value(d.take(i - start + 1)) == value * 10 + digit);
                    overflow_stays(d, i - start + 1);
                    assert(parsed_usize(s@) == parsed_usize_of_digits(d));
                }
                return None;
            },
        }
        i = i + 1;
    }
    proof {
        assert(d.take(n - start) =~= d);
    }
    Some(value)
}

/// Once a prefix's value exceeds `usize::MAX`, the prefix can only grow, or
/// some later character is not a digit.
proof fn overflow_stays(d: Seq<char>, i: int)
    requires
        0 < i <= d.len(),
        decimal_value(d.take(i)) > usize::MAX,
        forall|k: int| 0 <= k < i ==> is_digit(#[trigger] d[k]),
    ensures
        parsed_usize_of_digits(d) is None,
{
    if forall|k: int| 0 <= k < d.len() ==> is_digit(#[trigger] d[k]) {
        lemma_decimal_monotone(d, i);
    }
}

/// The digit part of `parsed_usize`.
pub open spec fn parsed_usize_of_digits(d: Seq<char>) -> Option<usize> {
    if d.len() > 0 && (forall|k: int| 0 <= k < d.len() ==> is_digit(#[trigger] d[k]))
        && decimal_value(d) <= usize::MAX {
        Some(decimal_value(d) as usize)
    } else {
        None
    }
}

/// Whether two texts are equal.
pub fn text_eq(a: &str, b: &str) -> (r: bool)
    ensures
        r == (a@ == b@),
{
    String::from_str(a) == String::from_str(b)
}

} // verus!
