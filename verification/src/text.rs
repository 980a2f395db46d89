//! Text primitives shared by the reply parsers: the character model of
//! a string, whitespace, trimming, line and token splitting, and
//! decimal numbers.

use vstd::prelude::*;

verus! {

/// Unicode `White_Space`, the predicate behind `char::is_whitespace`.
pub open spec fn is_ws(c: char) -> bool {
    ||| c == '\t'
    ||| c == '\n'
    ||| c == '\u{0B}'
    ||| c == '\u{0C}'
    ||| c == '\r'
    ||| c == ' '
    ||| c == '\u{85}'
    ||| c == '\u{A0}'
    ||| c == '\u{1680}'
    ||| ('\u{2000}' <= c && c <= '\u{200A}')
    ||| c == '\u{2028}'
    ||| c == '\u{2029}'
    ||| c == '\u{202F}'
    ||| c == '\u{205F}'
    ||| c == '\u{3000}'
}

/// The whitespace predicate as a value.
pub open spec fn ws() -> spec_fn(char) -> bool {
    |c: char| is_ws(c)
}

/// Its complement.
pub open spec fn non_ws() -> spec_fn(char) -> bool {
    |c: char| !is_ws(c)
}

/// Every character but `c`.
pub open spec fn not_char(c: char) -> spec_fn(char) -> bool {
    |x: char| x != c
}

/// Length of the longest prefix of `s` whose characters satisfy `p`.
pub open spec fn lead(s: Seq<char>, p: spec_fn(char) -> bool) -> nat
    decreases s.len(),
{
    if s.len() > 0 && p(s[0]) {
        1 + lead(s.drop_first(), p)
    } else {
        0
    }
}

/// Length of the longest suffix of `s` whose characters satisfy `p`.
pub open spec fn trail(s: Seq<char>, p: spec_fn(char) -> bool) -> nat
    decreases s.len(),
{
    if s.len() > 0 && p(s.last()) {
        1 + trail(s.drop_last(), p)
    } else {
        0
    }
}

/// `str::trim_start`.
pub open spec fn trim_start(s: Seq<char>) -> Seq<char> {
    s.skip(lead(s, ws()) as int)
}

/// `str::trim_end`.
pub open spec fn trim_end(s: Seq<char>) -> Seq<char> {
    s.take(s.len() - trail(s, ws()))
}

/// `str::trim`.
pub open spec fn trim(s: Seq<char>) -> Seq<char> {
    trim_end(trim_start(s))
}

/// What `lead` counts.
pub proof fn lemma_lead(s: Seq<char>, p: spec_fn(char) -> bool)
    ensures
        lead(s, p) <= s.len(),
        forall|k: int| 0 <= k < lead(s, p) ==> p(#[trigger] s[k]),
        lead(s, p) < s.len() ==> !p(s[lead(s, p) as int]),
    decreases s.len(),
{
    if s.len() > 0 && p(s[0]) {
        lemma_lead(s.drop_first(), p);
        assert forall|k: int| 0 <= k < lead(s, p) implies p(#[trigger] s[k]) by {
            if k > 0 {
                assert(s[k] == s.drop_first()[k - 1]);
            }
        }
    }
}

/// What `trail` counts.
pub proof fn lemma_trail(s: Seq<char>, p: spec_fn(char) -> bool)
    ensures
        trail(s, p) <= s.len(),
        forall|k: int| s.len() - trail(s, p) <= k < s.len() ==> p(#[trigger] s[k]),
        trail(s, p) < s.len() ==> !p(s[s.len() - trail(s, p) - 1]),
    decreases s.len(),
{
    if s.len() > 0 && p(s.last()) {
        lemma_trail(s.drop_last(), p);
        assert forall|k: int| s.len() - trail(s, p) <= k < s.len() implies p(#[trigger] s[k]) by {
            if k < s.len() - 1 {
                assert(s[k] == s.drop_last()[k]);
            }
        }
    }
}

/// `lead` is the first position whose character fails `p`.
pub proof fn lemma_lead_at(s: Seq<char>, p: spec_fn(char) -> bool, j: int)
    requires
        0 <= j <= s.len(),
        forall|k: int| 0 <= k < j ==> p(#[trigger] s[k]),
        j == s.len() || !p(s[j]),
    ensures
        lead(s, p) == j,
{
    lemma_lead(s, p);
    if lead(s, p) < j {
        assert(p(s[lead(s, p) as int]));
    }
    if lead(s, p) > j {
        assert(p(s[j]));
    }
}

/// `trail` is measured from the last position whose character fails `p`.
pub proof fn lemma_trail_at(s: Seq<char>, p: spec_fn(char) -> bool, j: int)
    requires
        0 <= j <= s.len(),
        forall|k: int| j <= k < s.len() ==> p(#[trigger] s[k]),
        j == 0 || !p(s[j - 1]),
    ensures
        trail(s, p) == s.len() - j,
{
    lemma_trail(s, p);
    if trail(s, p) < s.len() - j {
        assert(p(s[s.len() - trail(s, p) - 1]));
    }
    if trail(s, p) > s.len() - j {
        assert(p(s[j - 1]));
    }
}

/// Executable `char::is_whitespace`.
pub fn is_whitespace(c: char) -> (r: bool)
    ensures
        r == is_ws(c),
{
    c == '\t' || c == '\n' || c == '\u{0B}' || c == '\u{0C}' || c == '\r' || c == ' '
        || c == '\u{85}' || c == '\u{A0}' || c == '\u{1680}' || ('\u{2000}' <= c && c
        <= '\u{200A}') || c == '\u{2028}' || c == '\u{2029}' || c == '\u{202F}' || c
        == '\u{205F}' || c == '\u{3000}'
}

/// The characters of `s`, in order.
pub fn chars_of(s: &str) -> (v: Vec<char>)
    ensures
        v@ == s@,
{
    let mut v: Vec<char> = Vec::new();
    for c in it: s.chars()
        invariant
            v@ == it.seq().take(it.index() as int),
    {
        v.push(c);
    }
    v
}

/// Trims `cs[lo..hi]`: the bounds of `trim(cs[lo..hi])` inside `cs`.
pub fn trim_range(cs: &Vec<char>, lo: usize, hi: usize) -> (r: (usize, usize))
    requires
        lo <= hi <= cs.len(),
    ensures
        lo <= r.0 <= r.1 <= hi,
        cs@.subrange(r.0 as int, r.1 as int) == trim(cs@.subrange(lo as int, hi as int)),
{
    let ghost s = cs@.subrange(lo as int, hi as int);
    let mut a = lo;
    while a < hi && is_whitespace(cs[a])
        invariant
            lo <= a <= hi <= cs.len(),
            s == cs@.subrange(lo as int, hi as int),
            forall|k: int| 0 <= k < a - lo ==> ws()(#[trigger] s[k]),
        decreases hi - a,
    {
        assert(s[a - lo] == cs@[a as int]);
        a = a + 1;
    }
    proof {
        if a < hi {
            assert(s[a - lo] == cs@[a as int]);
        }
        lemma_lead_at(s, ws(), a - lo);
        assert(trim_start(s) =~= cs@.subrange(a as int, hi as int));
    }
    let ghost t = cs@.subrange(a as int, hi as int);
    let mut b = hi;
    while b > a && is_whitespace(cs[b - 1])
        invariant
            lo <= a <= b <= hi <= cs.len(),
            t == cs@.subrange(a as int, hi as int),
            forall|k: int| b - a <= k < t.len() ==> ws()(#[trigger] t[k]),
        decreases b - a,
    {
        assert(t[b - 1 - a] == cs@[b - 1]);
        b = b - 1;
    }
    proof {
        if b > a {
            assert(t[b - 1 - a] == cs@[b - 1]);
        }
        lemma_trail_at(t, ws(), b - a);
        assert(trim_end(t) =~= cs@.subrange(a as int, b as int));
    }
    (a, b)
}

/// Position of the first `c` in `cs[lo..hi]`, if any.
pub fn find_char(cs: &Vec<char>, lo: usize, hi: usize, c: char) -> (r: Option<usize>)
    requires
        lo <= hi <= cs.len(),
    ensures
        ({
            let s = cs@.subrange(lo as int, hi as int);
            match r {
                Some(i) => lo <= i < hi && lead(s, not_char(c)) == i - lo,
                None => lead(s, not_char(c)) == s.len(),
            }
        }),
{
    let ghost s = cs@.subrange(lo as int, hi as int);
    let mut j = lo;
    while j < hi
        invariant
            lo <= j <= hi <= cs.len(),
            s == cs@.subrange(lo as int, hi as int),
            forall|k: int| 0 <= k < j - lo ==> not_char(c)(#[trigger] s[k]),
        decreases hi - j,
    {
        assert(s[j - lo] == cs@[j as int]);
        if cs[j] == c {
            proof {
                lemma_lead_at(s, not_char(c), j - lo);
            }
            return Some(j);
        }
        j = j + 1;
    }
    proof {
        lemma_lead_at(s, not_char(c), j - lo);
    }
    None
}

/// Position of the first character of `cs[lo..hi]` that `is_ws` (or
/// `hi`), scanning from `lo`.
pub fn run_end(cs: &Vec<char>, lo: usize, hi: usize) -> (r: usize)
    requires
        lo <= hi <= cs.len(),
    ensures
        lo <= r <= hi,
        lead(cs@.subrange(lo as int, hi as int), non_ws()) == r - lo,
{
    let ghost s = cs@.subrange(lo as int, hi as int);
    let mut j = lo;
    while j < hi && !is_whitespace(cs[j])
        invariant
            lo <= j <= hi <= cs.len(),
            s == cs@.subrange(lo as int, hi as int),
            forall|k: int| 0 <= k < j - lo ==> non_ws()(#[trigger] s[k]),
        decreases hi - j,
    {
        assert(s[j - lo] == cs@[j as int]);
        j = j + 1;
    }
    proof {
        if j < hi {
            assert(s[j - lo] == cs@[j as int]);
        }
        lemma_lead_at(s, non_ws(), j - lo);
    }
    j
}

/// `str::split_once` on a character: the parts before and after the
/// first `c`.
pub open spec fn split_once(s: Seq<char>, c: char) -> Option<(Seq<char>, Seq<char>)> {
    let i = lead(s, not_char(c));
    if i < s.len() {
        Some((s.take(i as int), s.skip((i + 1) as int)))
    } else {
        None
    }
}

/// A line without the `\r` of a `\r\n` ending.
pub open spec fn strip_cr(s: Seq<char>) -> Seq<char> {
    if s.len() > 0 && s.last() == '\r' {
        s.drop_last()
    } else {
        s
    }
}

/// `str::lines`: pieces between `\n`s, a `\r` before a `\n` dropped, and
/// no empty piece after a final `\n`.
pub open spec fn lines(s: Seq<char>) -> Seq<Seq<char>>
    decreases s.len(),
{
    if s.len() == 0 {
        seq![]
    } else {
        let i = lead(s, not_char('\n'));
        if i < s.len() {
            seq![strip_cr(s.take(i as int))] + lines(s.skip((i + 1) as int))
        } else {
            seq![s]
        }
    }
}

/// `str::split_whitespace`: the maximal runs of non-whitespace.
pub open spec fn tokens(s: Seq<char>) -> Seq<Seq<char>>
    decreases s.len(),
{
    if s.len() == 0 {
        seq![]
    } else if is_ws(s[0]) {
        tokens(s.drop_first())
    } else {
        let k = lead(s, non_ws());
        proof {
            lemma_lead(s, non_ws());
        }
        seq![s.take(k as int)] + tokens(s.skip(k as int))
    }
}

/// The pieces of `cs` that `ranges` delimits.
pub open spec fn pieces(cs: Seq<char>, ranges: Seq<(usize, usize)>) -> Seq<Seq<char>> {
    Seq::new(ranges.len(), |i: int| cs.subrange(ranges[i].0 as int, ranges[i].1 as int))
}

/// Every range lies inside `[lo, hi)` of a text of length `n`.
pub open spec fn ranges_within(ranges: Seq<(usize, usize)>, lo: int, hi: int) -> bool {
    forall|i: int| 0 <= i < ranges.len() ==> lo <= #[trigger] ranges[i].0 <= ranges[i].1 <= hi
}

/// The lines of `cs`, as ranges.
pub fn line_ranges(cs: &Vec<char>) -> (r: Vec<(usize, usize)>)
    ensures
        ranges_within(r@, 0, cs.len() as int),
        pieces(cs@, r@) == lines(cs@),
{
    let n = cs.len();
    let mut r: Vec<(usize, usize)> = Vec::new();
    let mut pos: usize = 0;
    assert(cs@.skip(0) =~= cs@);
    while pos < n
        invariant
            n == cs.len(),
            pos <= n,
            ranges_within(r@, 0, n as int),
            lines(cs@) == pieces(cs@, r@) + lines(cs@.skip(pos as int)),
        decreases n - pos,
    {
        let ghost s = cs@.skip(pos as int);
        assert(s =~= cs@.subrange(pos as int, n as int));
        let ghost old_r = r@;
        match find_char(cs, pos, n, '\n') {
            Some(j) => {
                let mut end = j;
                if end > pos && cs[end - 1] == '\r' {
                    end = end - 1;
                }
                proof {
                    assert(s.take(j - pos) =~= cs@.subrange(pos as int, j as int));
                    assert(strip_cr(s.take(j - pos)) =~= cs@.subrange(pos as int, end as int));
                    assert(s.skip(j - pos + 1) =~= cs@.skip(j + 1));
                }
                r.push((pos, end));
                proof {
                    assert(pieces(cs@, r@) =~= pieces(cs@, old_r).push(
                        cs@.subrange(pos as int, end as int),
                    ));
                    assert(lines(cs@) =~= pieces(cs@, r@) + lines(cs@.skip(j + 1)));
                }
                pos = j + 1;
            },
            None => {
                r.push((pos, n));
                proof {
                    assert(pieces(cs@, r@) =~= pieces(cs@, old_r).push(s));
                    assert(cs@.skip(n as int) =~= Seq::<char>::empty());
                    assert(lines(cs@) =~= pieces(cs@, r@) + lines(cs@.skip(n as int)));
                }
                pos = n;
            },
        }
    }
    proof {
        assert(cs@.skip(n as int) =~= Seq::<char>::empty());
        assert(lines(cs@) =~= pieces(cs@, r@));
    }
    r
}

/// The whitespace-separated tokens of `cs[lo..hi]`, as ranges.
pub fn token_ranges(cs: &Vec<char>, lo: usize, hi: usize) -> (r: Vec<(usize, usize)>)
    requires
        lo <= hi <= cs.len(),
    ensures
        ranges_within(r@, lo as int, hi as int),
        pieces(cs@, r@) == tokens(cs@.subrange(lo as int, hi as int)),
{
    let mut r: Vec<(usize, usize)> = Vec::new();
    let mut pos = lo;
    while pos < hi
        invariant
            lo <= pos <= hi <= cs.len(),
            ranges_within(r@, lo as int, hi as int),
            tokens(cs@.subrange(lo as int, hi as int)) == pieces(cs@, r@) + tokens(
                cs@.subrange(pos as int, hi as int),
            ),
        decreases hi - pos,
    {
        let ghost s = cs@.subrange(pos as int, hi as int);
        assert(s[0] == cs@[pos as int]);
        if is_whitespace(cs[pos]) {
            assert(s.drop_first() =~= cs@.subrange(pos + 1, hi as int));
            pos = pos + 1;
        } else {
            let e = run_end(cs, pos, hi);
            let ghost old_r = r@;
            proof {
                assert(s.take(e - pos) =~= cs@.subrange(pos as int, e as int));
                assert(s.skip(e - pos) =~= cs@.subrange(e as int, hi as int));
            }
            r.push((pos, e));
            proof {
                assert(pieces(cs@, r@) =~= pieces(cs@, old_r).push(
                    cs@.subrange(pos as int, e as int),
                ));
                assert(tokens(cs@.subrange(lo as int, hi as int)) =~= pieces(cs@, r@) + tokens(
                    cs@.subrange(e as int, hi as int),
                ));
            }
            pos = e;
        }
    }
    proof {
        assert(cs@.subrange(hi as int, hi as int) =~= Seq::<char>::empty());
        assert(tokens(cs@.subrange(lo as int, hi as int)) =~= pieces(cs@, r@));
    }
    r
}

/// `s` begins with `p`.
pub open spec fn starts_with(s: Seq<char>, p: Seq<char>) -> bool {
    p.len() <= s.len() && s.take(p.len() as int) == p
}

/// `s` ends with `p`.
pub open spec fn ends_with(s: Seq<char>, p: Seq<char>) -> bool {
    p.len() <= s.len() && s.skip(s.len() - p.len()) == p
}

/// `str::trim_end_matches` with a fixed pattern: strip `p` from the end
/// as long as it is there.
pub open spec fn trim_end_matches(s: Seq<char>, p: Seq<char>) -> Seq<char>
    decreases s.len(),
{
    if p.len() > 0 && ends_with(s, p) {
        trim_end_matches(s.take(s.len() - p.len()), p)
    } else {
        s
    }
}

/// `String::push`: the contract claims that afterwards the string is the
/// old one with `c` appended, as the standard library documents.
#[verifier::external_body]
pub(crate) fn push_char(s: &mut String, c: char)
    ensures
        final(s)@ == old(s)@.push(c),
{
    s.push(c)
}

/// The text that `std::str::Utf8Error` displays for invalid `bytes`.
pub uninterp spec fn utf8_error_text(bytes: Seq<u8>) -> Seq<char>;

/// `std::str::from_utf8`, with its `Utf8Error` displayed: the contract
/// claims that it succeeds exactly on valid UTF-8 (no overlong forms, no
/// surrogates, nothing above U+10FFFF) and then gives the decoded text,
/// and that the error's message is a function of the bytes alone.  What
/// that message says is not stated.
#[verifier::external_body]
pub(crate) fn str_from_utf8(bytes: &[u8]) -> (r: Result<&str, String>)
    ensures
        r is Ok <==> vstd::utf8::valid_utf8(bytes@),
        r matches Ok(t) ==> t@ == vstd::utf8::decode_utf8(bytes@),
        r matches Err(m) ==> m@ == utf8_error_text(bytes@),
{
    match std::str::from_utf8(bytes) {
        Ok(t) => Ok(t),
        Err(e) => Err(format!("{}", e)),
    }
}

/// The text that `bytes` encode: their decoding when they are UTF-8.
pub open spec fn decoded(bytes: Seq<u8>) -> Option<Seq<char>> {
    if vstd::utf8::valid_utf8(bytes) {
        Some(vstd::utf8::decode_utf8(bytes))
    } else {
        None
    }
}

/// A fresh `String` holding `cs[lo..hi]`.
pub fn string_of(cs: &Vec<char>, lo: usize, hi: usize) -> (r: String)
    requires
        lo <= hi <= cs.len(),
    ensures
        r@ == cs@.subrange(lo as int, hi as int),
{
    let mut r = String::new();
    let mut i = lo;
    while i < hi
        invariant
            lo <= i <= hi <= cs.len(),
            r@ == cs@.subrange(lo as int, i as int),
        decreases hi - i,
    {
        push_char(&mut r, cs[i]);
        assert(r@ =~= cs@.subrange(lo as int, i + 1));
        i = i + 1;
    }
    r
}

/// A `String` holding all of `cs`.
pub fn string_of_chars(cs: &Vec<char>) -> (r: String)
    ensures
        r@ == cs@,
{
    let r = string_of(cs, 0, cs.len());
    assert(cs@.subrange(0, cs.len() as int) =~= cs@);
    r
}

/// `a` followed by `b`.
pub fn concat(a: &str, b: &str) -> (r: String)
    ensures
        r@ == a@ + b@,
{
    let mut cs = chars_of(a);
    let bs = chars_of(b);
    let mut i: usize = 0;
    while i < bs.len()
        invariant
            i <= bs.len(),
            bs@ == b@,
            cs@ == a@ + b@.take(i as int),
        decreases bs.len() - i,
    {
        cs.push(bs[i]);
        assert(cs@ =~= a@ + b@.take(i + 1));
        i = i + 1;
    }
    assert(b@.take(bs.len() as int) =~= b@);
    string_of_chars(&cs)
}

/// Whether `cs[lo..hi]` is the text `lit`.
pub fn range_is(cs: &Vec<char>, lo: usize, hi: usize, lit: &str) -> (r: bool)
    requires
        lo <= hi <= cs.len(),
    ensures
        r == (cs@.subrange(lo as int, hi as int) == lit@),
{
    let l = chars_of(lit);
    if hi - lo != l.len() {
        return false;
    }
    let mut i: usize = 0;
    while i < l.len()
        invariant
            lo <= hi <= cs.len(),
            hi - lo == l.len(),
            l@ == lit@,
            i <= l.len(),
            forall|k: int| 0 <= k < i ==> cs@[lo + k] == l@[k],
        decreases l.len() - i,
    {
        if cs[lo + i] != l[i] {
            assert(cs@.subrange(lo as int, hi as int)[i as int] != lit@[i as int]);
            return false;
        }
        i = i + 1;
    }
    assert(cs@.subrange(lo as int, hi as int) =~= lit@);
    true
}

/// Whether `cs[lo..hi]` begins with `lit`.
pub fn range_starts_with(cs: &Vec<char>, lo: usize, hi: usize, lit: &str) -> (r: bool)
    requires
        lo <= hi <= cs.len(),
    ensures
        r == starts_with(cs@.subrange(lo as int, hi as int), lit@),
{
    let l = chars_of(lit);
    if hi - lo < l.len() {
        return false;
    }
    let r = range_is(cs, lo, lo + l.len(), lit);
    assert(cs@.subrange(lo as int, hi as int).take(l.len() as int) =~= cs@.subrange(
        lo as int,
        lo + l.len(),
    ));
    r
}

/// Whether `cs[lo..hi]` ends with `lit`.
pub fn range_ends_with(cs: &Vec<char>, lo: usize, hi: usize, lit: &str) -> (r: bool)
    requires
        lo <= hi <= cs.len(),
    ensures
        r == ends_with(cs@.subrange(lo as int, hi as int), lit@),
{
    let l = chars_of(lit);
    if hi - lo < l.len() {
        return false;
    }
    let r = range_is(cs, hi - l.len(), hi, lit);
    assert(cs@.subrange(lo as int, hi as int).skip(hi - lo - l.len()) =~= cs@.subrange(
        hi - l.len(),
        hi as int,
    ));
    r
}

/// `cs[lo..hi]` without repeated trailing copies of `lit`.
pub fn trim_end_matches_range(cs: &Vec<char>, lo: usize, hi: usize, lit: &str) -> (r: usize)
    requires
        lo <= hi <= cs.len(),
    ensures
        lo <= r <= hi,
        cs@.subrange(lo as int, r as int) == trim_end_matches(
            cs@.subrange(lo as int, hi as int),
            lit@,
        ),
{
    let l = chars_of(lit);
    let mut e = hi;
    if l.len() == 0 {
        return hi;
    }
    while range_ends_with(cs, lo, e, lit)
        invariant
            lo <= e <= hi <= cs.len(),
            l@ == lit@,
            l.len() > 0,
            trim_end_matches(cs@.subrange(lo as int, hi as int), lit@) == trim_end_matches(
                cs@.subrange(lo as int, e as int),
                lit@,
            ),
        decreases e,
    {
        assert(cs@.subrange(lo as int, e as int).take(e - lo - l.len()) =~= cs@.subrange(
            lo as int,
            e - l.len(),
        ));
        e = e - l.len();
    }
    e
}

/// `c` is an ASCII decimal digit.
pub open spec fn is_digit(c: char) -> bool {
    '0' <= c && c <= '9'
}

/// Every character of `s` is a decimal digit.
pub open spec fn all_digits(s: Seq<char>) -> bool {
    forall|i: int| 0 <= i < s.len() ==> is_digit(#[trigger] s[i])
}

/// The number that the digits `s` spell in base ten.
pub open spec fn decimal_value(s: Seq<char>) -> nat
    decreases s.len(),
{
    if s.len() == 0 {
        0
    } else {
        decimal_value(s.drop_last()) * 10 + ((s.last() as int - '0' as int) as nat)
    }
}

/// `str::parse` for an unsigned integer type whose largest value is
/// `max`: an optional `+`, then at least one decimal digit, and a value
/// that fits.
pub open spec fn parse_unsigned(s: Seq<char>, max: nat) -> Option<nat> {
    let d = if s.len() > 0 && s[0] == '+' {
        s.drop_first()
    } else {
        s
    };
    if d.len() == 0 || !all_digits(d) || decimal_value(d) > max {
        None
    } else {
        Some(decimal_value(d))
    }
}

/// A longer run of digits is worth at least as much as its prefix.
pub proof fn lemma_decimal_prefix(s: Seq<char>, j: int)
    requires
        0 <= j <= s.len(),
        all_digits(s),
    ensures
        decimal_value(s.take(j)) <= decimal_value(s),
    decreases s.len(),
{
    if j < s.len() {
        assert(s.drop_last().take(j) =~= s.take(j));
        lemma_decimal_prefix(s.drop_last(), j);
    } else {
        assert(s.take(j) =~= s);
    }
}

/// `str::parse::<u64>`-style parsing of `cs[lo..hi]` into an unsigned
/// integer no larger than `max`.
pub fn parse_decimal(cs: &Vec<char>, lo: usize, hi: usize, max: u64) -> (r: Option<u64>)
    requires
        lo <= hi <= cs.len(),
    ensures
        match parse_unsigned(cs@.subrange(lo as int, hi as int), max as nat) {
            Some(v) => r == Some(v as u64),
            None => r is None,
        },
{
    let ghost s = cs@.subrange(lo as int, hi as int);
    let mut start = lo;
    if lo < hi && cs[lo] == '+' {
        start = lo + 1;
    }
    let ghost d = cs@.subrange(start as int, hi as int);
    proof {
        if lo < hi && cs@[lo as int] == '+' {
            assert(s.drop_first() =~= d);
        } else {
            assert(s =~= d);
        }
    }
    if start == hi {
        return None;
    }
    let mut acc: u64 = 0;
    let mut i = start;
    while i < hi
        invariant
            lo <= start < hi <= cs.len(),
            start <= i <= hi,
            s == cs@.subrange(lo as int, hi as int),
            d == cs@.subrange(start as int, hi as int),
            d == (if s.len() > 0 && s[0] == '+' {
                s.drop_first()
            } else {
                s
            }),
            all_digits(d.take(i - start)),
            acc as nat == decimal_value(d.take(i - start)),
            acc <= max,
        decreases hi - i,
    {
        let c = cs[i];
        assert(d[i - start] == c);
        if !('0' <= c && c <= '9') {
            assert(!all_digits(d));
            return None;
        }
        let dv = (c as u32 - '0' as u32) as u64;
        assert(d.take(i - start + 1).drop_last() =~= d.take(i - start));
        assert(d.take(i - start + 1).last() == c);
        if dv > max || acc > (max - dv) / 10 {
            proof {
                assert(decimal_value(d.take(i - start + 1)) > max) by (nonlinear_arith)
                    requires
                        decimal_value(d.take(i - start + 1)) == acc * 10 + dv,
                        dv > max || acc > (max - dv) / 10,
                        dv <= 9,
                ;
                if all_digits(d) {
                    lemma_decimal_prefix(d, i - start + 1);
                }
            }
            return None;
        }
        proof {
            assert(acc * 10 + dv <= max) by (nonlinear_arith)
                requires
                    acc <= (max - dv) / 10,
                    dv <= max,
            ;
            assert(all_digits(d.take(i - start + 1)));
        }
        acc = acc * 10 + dv;
        i = i + 1;
    }
    assert(d.take(hi - start) =~= d);
    Some(acc)
}

/// The character of a decimal digit value.
pub open spec fn digit_char(d: nat) -> char {
    (d + '0' as nat) as char
}

/// The decimal text of `n`, as `Display` writes an unsigned integer.
pub open spec fn decimal(n: nat) -> Seq<char>
    decreases n,
{
    if n < 10 {
        seq![digit_char(n)]
    } else {
        decimal(n / 10).push(digit_char(n % 10))
    }
}

/// The decimal text of `n`.
pub fn decimal_string(n: u64) -> (r: String)
    ensures
        r@ == decimal(n as nat),
    decreases n,
{
    let d = (n % 10) as u8;
    let c = (48u8 + d) as char;
    if n < 10 {
        let mut r = String::new();
        push_char(&mut r, c);
        assert(r@ =~= decimal(n as nat));
        r
    } else {
        let mut r = decimal_string(n / 10);
        push_char(&mut r, c);
        r
    }
}

/// An owned copy of `lit`.
pub fn owned(lit: &str) -> (r: String)
    ensures
        r@ == lit@,
{
    lit.to_owned()
}

/// `s` followed by spaces up to `width` characters, as `{:<width}`
/// formats it.
pub open spec fn padded(s: Seq<char>, width: nat) -> Seq<char> {
    if s.len() >= width {
        s
    } else {
        s + Seq::new((width - s.len()) as nat, |i: int| ' ')
    }
}

/// `s` left-aligned in a column of `width` characters.
pub fn pad_right(s: &str, width: usize) -> (r: String)
    ensures
        r@ == padded(s@, width as nat),
{
    let mut cs = chars_of(s);
    let n = cs.len();
    while cs.len() < width
        invariant
            n == s@.len(),
            cs@.len() >= n,
            cs@.take(n as int) == s@,
            forall|i: int| n <= i < cs@.len() ==> cs@[i] == ' ',
            n < width ==> cs@.len() <= width,
            n >= width ==> cs@.len() == n,
        decreases width - cs.len(),
    {
        cs.push(' ');
    }
    proof {
        if n < width {
            assert(cs@ =~= s@ + Seq::new((width - n) as nat, |i: int| ' '));
        } else {
            assert(cs@ =~= s@);
        }
    }
    string_of_chars(&cs)
}

/// Dropping a trailing `\r` (or any trailing whitespace character)
/// does not change what `trim` gives.
pub proof fn lemma_trim_strip_cr(t: Seq<char>)
    ensures
        trim(strip_cr(t)) == trim(t),
{
    if t.len() > 0 && t.last() == '\r' {
        let u = t.drop_last();
        lemma_lead(t, ws());
        lemma_lead(u, ws());
        if lead(t, ws()) == t.len() {
            // All whitespace: both trim to nothing.
            assert forall|k: int| 0 <= k < u.len() implies ws()(#[trigger] u[k]) by {
                assert(u[k] == t[k]);
            }
            lemma_lead_at(u, ws(), u.len() as int);
            assert(trim_start(u) =~= Seq::<char>::empty());
            assert(trim_start(t) =~= Seq::<char>::empty());
        } else {
            let i = lead(t, ws()) as int;
            assert(i < u.len()) by {
                if i == u.len() {
                    assert(!ws()(t[i]));
                }
            }
            assert forall|k: int| 0 <= k < i implies ws()(#[trigger] u[k]) by {
                assert(u[k] == t[k]);
            }
            assert(u[i] == t[i]);
            lemma_lead_at(u, ws(), i);
            let v = trim_start(t);
            let w = trim_start(u);
            assert(w =~= v.drop_last());
            assert(v.len() > 0 && v.last() == '\r');
            assert(ws()(v.last()));
            assert(trail(v, ws()) == 1 + trail(v.drop_last(), ws()));
            assert(w == v.drop_last());
            lemma_trail(w, ws());
            assert(trim_end(w) =~= trim_end(v));
        }
    }
}

/// Valid UTF-8 decodes piecewise: the decoding of two valid byte runs,
/// one after the other, is the decoding of each.
proof fn lemma_decode_concat(b1: Seq<u8>, b2: Seq<u8>)
    requires
        vstd::utf8::valid_utf8(b1),
        vstd::utf8::valid_utf8(b2),
    ensures
        vstd::utf8::valid_utf8(b1 + b2),
        vstd::utf8::decode_utf8(b1 + b2) == vstd::utf8::decode_utf8(b1) + vstd::utf8::decode_utf8(
            b2,
        ),
    decreases b1.len(),
{
    vstd::utf8::valid_utf8_concat(b1, b2);
    if b1.len() == 0 {
        assert(b1 + b2 =~= b2);
        assert(vstd::utf8::decode_utf8(b1) =~= Seq::<char>::empty());
        assert(vstd::utf8::decode_utf8(b1) + vstd::utf8::decode_utf8(b2) =~= vstd::utf8::decode_utf8(
            b2,
        ));
    } else {
        let rest = vstd::utf8::pop_first_scalar(b1);
        let n = vstd::utf8::length_of_first_scalar(b1);
        assert(1 <= n <= b1.len());
        assert(rest.len() == b1.len() - n);
        lemma_decode_concat(rest, b2);
        assert(vstd::utf8::pop_first_scalar(b1 + b2) =~= rest + b2);
        assert(forall|k: int| 0 <= k < n ==> (b1 + b2)[k] == b1[k]);
        assert(vstd::utf8::decode_first_scalar(b1 + b2) == vstd::utf8::decode_first_scalar(b1));
        assert(vstd::utf8::decode_utf8(b1 + b2) =~= vstd::utf8::decode_utf8(b1)
            + vstd::utf8::decode_utf8(b2));
    }
}

/// A line break decodes to `\n`.
proof fn lemma_decode_newline()
    ensures
        vstd::utf8::valid_utf8(seq![10u8]),
        vstd::utf8::decode_utf8(seq![10u8]) == "\n"@,
{
    reveal_strlit("\n");
    let b = seq![10u8];
    assert(10u8 & 0x7fu8 == 10u8) by (bit_vector);
    assert(vstd::utf8::pop_first_scalar(b) =~= Seq::<u8>::empty());
    reveal_with_fuel(vstd::utf8::valid_utf8, 2);
    assert(vstd::utf8::valid_utf8(b));
    assert(vstd::utf8::decode_first_scalar(b) == 10u32);
    vstd::utf8::char_u32_cast('\n', 10u32);
    reveal_with_fuel(vstd::utf8::decode_utf8, 2);
    assert(vstd::utf8::decode_utf8(b) =~= "\n"@);
}

/// Two replies joined by a line break decode to their texts joined by
/// `\n`.
pub proof fn lemma_decoded_join(a: Seq<u8>, b: Seq<u8>)
    requires
        decoded(a) is Some,
        decoded(b) is Some,
    ensures
        decoded(a + seq![10u8] + b) == Some(decoded(a)->0 + "\n"@ + decoded(b)->0),
{
    lemma_decode_newline();
    lemma_decode_concat(a, seq![10u8]);
    lemma_decode_concat(a + seq![10u8], b);
}

/// Text that neither starts nor ends with whitespace is its own trim.
pub proof fn lemma_trim_plain(s: Seq<char>)
    requires
        s.len() > 0,
        !is_ws(s[0]),
        !is_ws(s.last()),
    ensures
        trim(s) == s,
{
    lemma_lead_at(s, ws(), 0);
    assert(trim_start(s) =~= s);
    lemma_trail_at(s, ws(), s.len() as int);
    assert(trim_end(s) =~= s);
}

/// A single word, with no whitespace in it, splits into just itself.
pub proof fn lemma_tokens_word(w: Seq<char>)
    requires
        w.len() > 0,
        forall|k: int| 0 <= k < w.len() ==> !is_ws(#[trigger] w[k]),
    ensures
        tokens(w) == seq![w],
{
    lemma_lead_at(w, non_ws(), w.len() as int);
    assert(w.take(w.len() as int) =~= w);
    assert(w.skip(w.len() as int) =~= Seq::<char>::empty());
    assert(tokens(Seq::<char>::empty()) =~= Seq::<Seq<char>>::empty());
    assert(seq![w] + Seq::<Seq<char>>::empty() =~= seq![w]);
}

/// `w` is the first word of `s`: after any leading whitespace, `s`
/// begins with `w`, which is nonempty and holds no whitespace, and is
/// followed by whitespace or by nothing.
pub open spec fn is_first_word(s: Seq<char>, w: Seq<char>) -> bool {
    let u = trim_start(s);
    &&& w.len() > 0
    &&& forall|k: int| 0 <= k < w.len() ==> !is_ws(#[trigger] w[k])
    &&& w.len() <= u.len()
    &&& u.take(w.len() as int) == w
    &&& u.len() > w.len() ==> is_ws(u[w.len() as int])
}

/// The first token `split_whitespace` gives is the first word.
pub proof fn lemma_tokens_first(s: Seq<char>)
    requires
        tokens(s).len() > 0,
    ensures
        is_first_word(s, tokens(s)[0]),
    decreases s.len(),
{
    if is_ws(s[0]) {
        let t = s.drop_first();
        lemma_tokens_first(t);
        assert(lead(s, ws()) == 1 + lead(t, ws()));
        lemma_lead(t, ws());
        assert(trim_start(s) =~= trim_start(t));
    } else {
        let k = lead(s, non_ws());
        lemma_lead(s, non_ws());
        assert(k > 0);
        lemma_lead_at(s, ws(), 0);
        assert(trim_start(s) =~= s);
        assert((seq![s.take(k as int)] + tokens(s.skip(k as int)))[0] == s.take(k as int));
        let w = s.take(k as int);
        assert forall|j: int| 0 <= j < w.len() implies !is_ws(#[trigger] w[j]) by {
            assert(non_ws()(s[j]));
        }
        if s.len() > k {
            assert(!non_ws()(s[k as int]));
        }
    }
}

/// A word followed by a space splits into the word, then the tokens of
/// what follows.
pub proof fn lemma_tokens_word_then(w: Seq<char>, r: Seq<char>)
    requires
        w.len() > 0,
        forall|k: int| 0 <= k < w.len() ==> !is_ws(#[trigger] w[k]),
    ensures
        tokens(w + " "@ + r) == seq![w] + tokens(r),
{
    reveal_strlit(" ");
    let s = w + " "@ + r;
    assert forall|k: int| 0 <= k < w.len() implies non_ws()(#[trigger] s[k]) by {
        assert(s[k] == w[k]);
    }
    assert(s[w.len() as int] == ' ');
    lemma_lead_at(s, non_ws(), w.len() as int);
    assert(s.take(w.len() as int) =~= w);
    let after = s.skip(w.len() as int);
    assert(after[0] == ' ');
    assert(is_ws(after[0]));
    assert(after.drop_first() =~= r);
    assert(tokens(after) == tokens(r));
    assert(s[0] == w[0]);
    assert(!is_ws(s[0]));
    assert(tokens(s) == seq![s.take(w.len() as int)] + tokens(after));
}

} // verus!
