use vstd::prelude::*;
use vstd::string::StrSliceExecFns;

use crate::text::decimal;
use crate::text::digit_char;
use crate::text::digits_of;

verus! {

/// Whether `c` has the Unicode `White_Space` property, which is what
/// `char::is_whitespace` tests: U+0009 to U+000D, U+0020, U+0085, U+00A0,
/// U+1680, U+2000 to U+200A, U+2028, U+2029, U+202F, U+205F and U+3000.
pub open spec fn is_white_space(c: char) -> bool {
    let n = c as u32;
    ||| 0x9 <= n <= 0xd
    ||| n == 0x20
    ||| n == 0x85
    ||| n == 0xa0
    ||| n == 0x1680
    ||| 0x2000 <= n <= 0x200a
    ||| n == 0x2028
    ||| n == 0x2029
    ||| n == 0x202f
    ||| n == 0x205f
    ||| n == 0x3000
}

/// Whether `c` is whitespace (`char::is_whitespace`).
pub fn is_whitespace(c: char) -> (r: bool)
    ensures
        r == is_white_space(c),
{
    let n = c as u32;
    (0x9 <= n && n <= 0xd) || n == 0x20 || n == 0x85 || n == 0xa0 || n == 0x1680 || (0x2000 <= n
        && n <= 0x200a) || n == 0x2028 || n == 0x2029 || n == 0x202f || n == 0x205f || n == 0x3000
}

/// `s` without its leading whitespace.
pub open spec fn trim_start(s: Seq<char>) -> Seq<char>
    decreases s.len(),
{
    if s.len() > 0 && is_white_space(s[0]) {
        trim_start(s.drop_first())
    } else {
        s
    }
}

/// `s` without its trailing whitespace.
pub open spec fn trim_end(s: Seq<char>) -> Seq<char>
    decreases s.len(),
{
    if s.len() > 0 && is_white_space(s.last()) {
        trim_end(s.drop_last())
    } else {
        s
    }
}

/// `s` without its leading and trailing whitespace (`str::trim`).
pub open spec fn trimmed(s: Seq<char>) -> Seq<char> {
    trim_end(trim_start(s))
}

/// Whether `c` is an ASCII decimal digit.
pub open spec fn is_digit(c: char) -> bool {
    '0' <= c && c <= '9'
}

/// The value of the decimal digits `s`.
pub open spec fn digits_value(s: Seq<char>) -> int
    decreases s.len(),
{
    if s.len() == 0 {
        0
    } else {
        digits_value(s.drop_last()) * 10 + (s.last() as int - 48)
    }
}

/// Whether `s` is made of ASCII decimal digits only.
pub open spec fn all_digits(s: Seq<char>) -> bool {
    forall|i: int| 0 <= i < s.len() ==> is_digit(#[trigger] s[i])
}

/// `s` without its leading sign, if any.
pub open spec fn unsigned_part(s: Seq<char>) -> Seq<char> {
    if s.len() > 0 && (s[0] == '-' || s[0] == '+') {
        s.drop_first()
    } else {
        s
    }
}

/// The value of `s` as an `i64` (`str::parse::<i64>`): an optional `+` or
/// `-` sign followed by at least one ASCII digit and nothing else, in range.
pub open spec fn parse_i64(s: Seq<char>) -> Option<i64> {
    let body = unsigned_part(s);
    let value = if s.len() > 0 && s[0] == '-' {
        -digits_value(body)
    } else {
        digits_value(body)
    };
    if body.len() > 0 && all_digits(body) && i64::MIN <= value <= i64::MAX {
        Some(value as i64)
    } else {
        None
    }
}

/// The pieces of `s` between commas (`str::split(',')`): one more piece
/// than there are commas.
pub open spec fn split_commas(s: Seq<char>) -> Seq<Seq<char>>
    decreases s.len(),
{
    if s.len() == 0 {
        seq![Seq::empty()]
    } else if s.last() == ',' {
        split_commas(s.drop_last()).push(Seq::empty())
    } else {
        let p = split_commas(s.drop_last());
        p.update(p.len() - 1, p.last().push(s.last()))
    }
}

/// The ids of the pieces, in order: each piece trimmed and parsed, the
/// pieces that are not numbers skipped.
pub open spec fn ids_of(pieces: Seq<Seq<char>>) -> Seq<i64>
    decreases pieces.len(),
{
    if pieces.len() == 0 {
        Seq::empty()
    } else {
        match parse_i64(trimmed(pieces.last())) {
            Some(v) => ids_of(pieces.drop_last()).push(v),
            None => ids_of(pieces.drop_last()),
        }
    }
}

proof fn lemma_digits_value_nonneg(s: Seq<char>)
    requires
        forall|i: int| 0 <= i < s.len() ==> is_digit(#[trigger] s[i]),
    ensures
        0 <= digits_value(s),
    decreases s.len(),
{
    if s.len() > 0 {
        lemma_digits_value_nonneg(s.drop_last());
    }
}

proof fn lemma_digits_value_grows(s: Seq<char>, k: int)
    requires
        0 <= k <= s.len(),
        forall|i: int| 0 <= i < s.len() ==> is_digit(#[trigger] s[i]),
    ensures
        digits_value(s.take(k)) <= digits_value(s),
    decreases s.len(),
{
    if k == s.len() {
        assert(s.take(k) =~= s);
    } else {
        let p = s.drop_last();
        lemma_digits_value_grows(p, k);
        lemma_digits_value_nonneg(p);
        assert(p.take(k) =~= s.take(k));
        assert(is_digit(s[s.len() - 1]));
    }
}

/// Parses the characters `lo..hi` of `s` as an `i64`.
fn parse_range(s: &str, lo: usize, hi: usize) -> (r: Option<i64>)
    requires
        lo <= hi <= s@.len(),
    ensures
        r == parse_i64(s@.subrange(lo as int, hi as int)),
{
    let ghost t = s@.subrange(lo as int, hi as int);
    let mut start = lo;
    let mut negative = false;
    if lo < hi {
        let c = s.get_char(lo);
        if c == '-' {
            negative = true;
            start = lo + 1;
        } else if c == '+' {
            start = lo + 1;
        }
    }
    let ghost body = s@.subrange(start as int, hi as int);
    assert(body =~= unsigned_part(t));
    if start == hi {
        return None;
    }
    let limit: u64 = 9223372036854775808;
    let mut magnitude: u64 = 0;
    let mut i = start;
    while i < hi
        invariant
            lo <= start <= i <= hi <= s@.len(),
            body == s@.subrange(start as int, hi as int),
            t == s@.subrange(lo as int, hi as int),
            body == unsigned_part(t),
            negative == (t.len() > 0 && t[0] == '-'),
            magnitude <= limit,
            limit == 9223372036854775808u64,
            magnitude == digits_value(body.take(i - start)),
            forall|j: int| 0 <= j < i - start ==> is_digit(#[trigger] body[j]),
        decreases hi - i,
    {
        let c = s.get_char(i);
        assert(c == body[i - start]);
        if c < '0' || c > '9' {
            assert(!is_digit(body[i - start]));

            return None;
        }
        let d = (c as u32 - 48) as u64;
        assert(body.take(i - start + 1).drop_last() =~= body.take(i - start));
        if magnitude > (limit - d) / 10 {
            proof {
                assert(magnitude * 10 + d > limit) by (nonlinear_arith)
                    requires
                        magnitude > (limit - d) / 10,
                        d <= 9,
                        limit >= 9,
                ;
                assert forall|j: int| 0 <= j < i - start + 1 implies is_digit(#[trigger] body[j]) by {}
                if all_digits(body) {
                    lemma_digits_value_grows(body, i - start + 1);
                }
            }
            return None;
        }
        assert(magnitude * 10 + d <= limit) by (nonlinear_arith)
            requires
                magnitude <= (limit - d) / 10,
                d <= 9,
                limit >= 9,
        ;
        magnitude = magnitude * 10 + d;
        i = i + 1;
    }
    assert(body.take(body.len() as int) =~= body);
    if negative {
        if magnitude == limit {
            Some(i64::MIN)
        } else {
            Some(-(magnitude as i64))
        }
    } else {
        if magnitude == limit {
            None
        } else {
            Some(magnitude as i64)
        }
    }
}

/// The bounds of the characters `lo..hi` of `s` once trimmed.
fn trim_range(s: &str, lo: usize, hi: usize) -> (r: (usize, usize))
    requires
        lo <= hi <= s@.len(),
    ensures
        lo <= r.0 <= r.1 <= hi,
        s@.subrange(r.0 as int, r.1 as int) == trimmed(s@.subrange(lo as int, hi as int)),
{
    let mut a = lo;
    while a < hi && is_whitespace(s.get_char(a))
        invariant
            lo <= a <= hi <= s@.len(),
            trim_start(s@.subrange(a as int, hi as int)) == trim_start(s@.subrange(lo as int, hi as int)),
        decreases hi - a,
    {
        assert(s@.subrange(a as int, hi as int).drop_first() =~= s@.subrange(a + 1, hi as int));
        a = a + 1;
    }
    let mut b = hi;
    while b > a && is_whitespace(s.get_char(b - 1))
        invariant
            lo <= a <= b <= hi <= s@.len(),
            trim_end(s@.subrange(a as int, b as int)) == trim_end(s@.subrange(a as int, hi as int)),
        decreases b - a,
    {
        assert(s@.subrange(a as int, b as int).drop_last() =~= s@.subrange(a as int, b - 1));
        b = b - 1;
    }
    (a, b)
}

/// The ids listed in `ids`, a comma-separated list (`?ids=1001,1002`):
/// each piece is trimmed and parsed as an `i64`, and the pieces that are not
/// numbers are skipped.
pub fn parse_ids(ids: &str) -> (r: Vec<i64>)
    ensures
        r@ == ids_of(split_commas(ids@)),
{
    let n = ids.unicode_len();
    let mut out: Vec<i64> = Vec::new();
    let mut start: usize = 0;
    let mut i: usize = 0;
    let ghost mut done: Seq<Seq<char>> = Seq::empty();
    assert(ids@.take(0) =~= Seq::<char>::empty());
    assert(ids@.subrange(0, 0) =~= Seq::<char>::empty());
    while i < n
        invariant
            n == ids@.len(),
            start <= i <= n,
            split_commas(ids@.take(i as int)) == done.push(ids@.subrange(start as int, i as int)),
            out@ == ids_of(done),
        decreases n - i,
    {
        let c = ids.get_char(i);
        assert(ids@.take(i + 1).drop_last() =~= ids@.take(i as int));
        assert(ids@.take(i + 1).last() == c);
        if c == ',' {
            let (a, b) = trim_range(ids, start, i);
            let ghost piece = ids@.subrange(start as int, i as int);
            match parse_range(ids, a, b) {
                Some(v) => {
                    out.push(v);
                },
                None => {},
            }
            proof {
                assert(done.push(piece).drop_last() =~= done);
                done = done.push(piece);
                assert(ids@.subrange(i + 1, i + 1) =~= Seq::<char>::empty());
            }
            start = i + 1;
        } else {
            proof {
                assert(ids@.subrange(start as int, i + 1) =~= ids@.subrange(start as int, i as int).push(c));
                assert(done.push(ids@.subrange(start as int, i as int)).update(
                    done.len() as int,
                    ids@.subrange(start as int, i + 1),
                ) =~= done.push(ids@.subrange(start as int, i + 1)));
            }
        }
        i = i + 1;
    }
    let (a, b) = trim_range(ids, start, n);
    let ghost piece = ids@.subrange(start as int, n as int);
    match parse_range(ids, a, b) {
        Some(v) => {
            out.push(v);
        },
        None => {},
    }
    proof {
        assert(ids@.take(n as int) =~= ids@);
        assert(done.push(piece).drop_last() =~= done);
    }
    out
}

proof fn lemma_digits_of_parse(m: nat)
    ensures
        digits_of(m).len() > 0,
        all_digits(digits_of(m)),
        digits_value(digits_of(m)) == m,
    decreases m,
{
    let d = (m % 10) as int;
    assert(digit_char(d) as int == d + 48);
    if m >= 10 {
        lemma_digits_of_parse(m / 10);
        let p = digits_of(m / 10);
        assert(digits_of(m).drop_last() =~= p);
        assert(digits_of(m).last() == digit_char(d));
        assert(digits_value(digits_of(m)) == digits_value(p) * 10 + d);
        assert(m == (m / 10) * 10 + d);
        assert forall|i: int| 0 <= i < digits_of(m).len() implies is_digit(#[trigger] digits_of(m)[i]) by {
            if i < p.len() {
                assert(digits_of(m)[i] == p[i]);
            }
        }
    } else {
        assert(digits_of(m).drop_last() =~= Seq::<char>::empty());
        assert(digits_value(digits_of(m)) == digits_value(Seq::<char>::empty()) * 10 + d);
    }
}

/// Parsing the decimal rendering of an `i64` gives the number back: the ids
/// the client renders in a query are the ids the rates route reads.
pub proof fn lemma_parse_decimal(n: i64)
    ensures
        parse_i64(decimal(n as int)) == Some(n),
{
    if n < 0 {
        let m = (-(n as int)) as nat;
        lemma_digits_of_parse(m);
        let s = decimal(n as int);
        assert(s[0] == '-');
        assert(s.drop_first() =~= digits_of(m));
    } else {
        lemma_digits_of_parse(n as nat);
        let s = digits_of(n as nat);
        assert(s[0] != '-' && s[0] != '+') by {
            assert(is_digit(s[0]));
        }
        assert(unsigned_part(s) == s);
    }
}

} // verus!
