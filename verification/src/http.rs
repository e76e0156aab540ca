//! The small HTTP/1.1 dialect AirDrop speaks over TLS: finding the end of a
//! message head, reading the request line and headers of a request,
//! routing it, and the heads of responses and requests. Header text is
//! handled as ASCII bytes: whitespace, case and digits are those of ASCII.

use vstd::prelude::*;
use vstd::string::StringExecFns;
use crate::text::{dec_chars, push_decimal};

verus! {

// ---------------------------------------------------------------------------
// End of the head
// ---------------------------------------------------------------------------

/// `s` has CR LF CR LF at `i`.
pub open spec fn crlf2_at(s: Seq<u8>, i: int) -> bool {
    0 <= i && i + 4 <= s.len() && s[i] == 13 && s[i + 1] == 10 && s[i + 2] == 13 && s[i + 3] == 10
}

/// Where the first CR LF CR LF of `s` starts.
pub fn blank_line_start(s: &[u8]) -> (r: Option<usize>)
    ensures
        match r {
            Some(i) => crlf2_at(s@, i as int) && forall|j: int| 0 <= j < i ==> !crlf2_at(s@, j),
            None => forall|j: int| !crlf2_at(s@, j),
        },
{
    if s.len() < 4 {
        return None;
    }
    let mut i: usize = 0;
    while i <= s.len() - 4
        invariant
            s@.len() >= 4,
            i <= s@.len() - 3,
            forall|j: int| 0 <= j < i ==> !crlf2_at(s@, j),
        decreases s@.len() - i,
    {
        if s[i] == 13 && s[i + 1] == 10 && s[i + 2] == 13 && s[i + 3] == 10 {
            return Some(i);
        }
        i += 1;
    }
    None
}

/// The length of the head of message `response`, blank line included: the
/// body starts there.
pub fn find_header_end(response: &[u8]) -> (r: Option<usize>)
    ensures
        match r {
            Some(k) => k >= 4 && crlf2_at(response@, k - 4) && forall|j: int| 0 <= j < k - 4 ==> !crlf2_at(response@, j),
            None => forall|j: int| !crlf2_at(response@, j),
        },
{
    match blank_line_start(response) {
        Some(i) => {
            assert(response@.len() == response.len());
            assert(i + 4 <= response@.len());
            Some(i + 4)
        },
        None => None,
    }
}

// ---------------------------------------------------------------------------
// ASCII text
// ---------------------------------------------------------------------------

/// ASCII whitespace: space, tab, line feed, vertical tab, form feed,
/// carriage return.
pub open spec fn is_ws(b: u8) -> bool {
    b == 32 || (9 <= b && b <= 13)
}

/// A byte in ASCII upper case.
pub open spec fn upper_byte(b: u8) -> u8 {
    if 97 <= b && b <= 122 { (b - 32) as u8 } else { b }
}

/// A byte in ASCII lower case.
pub open spec fn lower_byte(b: u8) -> u8 {
    if 65 <= b && b <= 90 { (b + 32) as u8 } else { b }
}

/// `s` in ASCII lower case.
pub open spec fn lower(s: Seq<u8>) -> Seq<u8> {
    s.map_values(|b: u8| lower_byte(b))
}

/// `s` in ASCII upper case.
pub open spec fn upper(s: Seq<u8>) -> Seq<u8> {
    s.map_values(|b: u8| upper_byte(b))
}

/// The first index from `i` on that is not whitespace (or the end).
pub open spec fn skip_ws(s: Seq<u8>, i: int) -> int
    decreases s.len() - i,
{
    if i < 0 || i >= s.len() || !is_ws(s[i]) { i } else { skip_ws(s, i + 1) }
}

/// The end of the non-whitespace run starting at `i`.
pub open spec fn word_end(s: Seq<u8>, i: int) -> int
    decreases s.len() - i,
{
    if i < 0 || i >= s.len() || is_ws(s[i]) { i } else { word_end(s, i + 1) }
}

/// The last index before `j` after which only whitespace follows, walking
/// back no further than `i`.
pub open spec fn trim_end_at(s: Seq<u8>, i: int, j: int) -> int
    decreases j - i,
{
    if j <= i || !is_ws(s[j - 1]) { j } else { trim_end_at(s, i, j - 1) }
}

/// `s` without leading and trailing whitespace.
pub open spec fn trim(s: Seq<u8>) -> Seq<u8> {
    let a = skip_ws(s, 0);
    s.subrange(a, trim_end_at(s, a, s.len() as int))
}

proof fn lemma_skip_ws(s: Seq<u8>, i: int)
    requires
        0 <= i <= s.len(),
    ensures
        i <= skip_ws(s, i) <= s.len(),
        forall|k: int| i <= k < skip_ws(s, i) ==> is_ws(s[k]),
        skip_ws(s, i) < s.len() ==> !is_ws(s[skip_ws(s, i)]),
    decreases s.len() - i,
{
    if i < s.len() && is_ws(s[i]) {
        lemma_skip_ws(s, i + 1);
    }
}

proof fn lemma_word_end(s: Seq<u8>, i: int)
    requires
        0 <= i <= s.len(),
    ensures
        i <= word_end(s, i) <= s.len(),
        forall|k: int| i <= k < word_end(s, i) ==> !is_ws(s[k]),
        word_end(s, i) < s.len() ==> is_ws(s[word_end(s, i)]),
    decreases s.len() - i,
{
    if i < s.len() && !is_ws(s[i]) {
        lemma_word_end(s, i + 1);
    }
}

proof fn lemma_trim_end(s: Seq<u8>, i: int, j: int)
    requires
        0 <= i <= j <= s.len(),
    ensures
        i <= trim_end_at(s, i, j) <= j,
    decreases j - i,
{
    if j > i && is_ws(s[j - 1]) {
        lemma_trim_end(s, i, j - 1);
    }
}

/// The index of the first non-whitespace byte of `s` from `i` on.
fn skip_ws_exec(s: &[u8], i: usize) -> (r: usize)
    requires
        i <= s@.len(),
    ensures
        r == skip_ws(s@, i as int),
        i <= r <= s@.len(),
{
    proof {
        lemma_skip_ws(s@, i as int);
    }
    let mut k = i;
    while k < s.len() && (s[k] == 32 || (9 <= s[k] && s[k] <= 13))
        invariant
            i <= k <= s@.len(),
            skip_ws(s@, i as int) == skip_ws(s@, k as int),
        decreases s@.len() - k,
    {
        k += 1;
    }
    k
}

/// The end of the non-whitespace run of `s` starting at `i`.
fn word_end_exec(s: &[u8], i: usize) -> (r: usize)
    requires
        i <= s@.len(),
    ensures
        r == word_end(s@, i as int),
        i <= r <= s@.len(),
{
    proof {
        lemma_word_end(s@, i as int);
    }
    let mut k = i;
    while k < s.len() && !(s[k] == 32 || (9 <= s[k] && s[k] <= 13))
        invariant
            i <= k <= s@.len(),
            word_end(s@, i as int) == word_end(s@, k as int),
        decreases s@.len() - k,
    {
        k += 1;
    }
    k
}

/// `s` without leading and trailing whitespace.
pub fn trim_bytes(s: &[u8]) -> (r: &[u8])
    ensures
        r@ == trim(s@),
{
    let a = skip_ws_exec(s, 0);
    let mut j = s.len();
    proof {
        lemma_trim_end(s@, a as int, s@.len() as int);
    }
    while j > a && (s[j - 1] == 32 || (9 <= s[j - 1] && s[j - 1] <= 13))
        invariant
            a <= j <= s@.len(),
            a == skip_ws(s@, 0),
            trim_end_at(s@, a as int, s@.len() as int) == trim_end_at(s@, a as int, j as int),
        decreases j,
    {
        j -= 1;
    }
    vstd::slice::slice_subrange(s, a, j)
}

/// `s` in ASCII lower case.
pub fn lower_bytes(s: &[u8]) -> (r: Vec<u8>)
    ensures
        r@ == lower(s@),
{
    let mut r: Vec<u8> = Vec::new();
    let mut i: usize = 0;
    while i < s.len()
        invariant
            i <= s@.len(),
            r@ == lower(s@.take(i as int)),
        decreases s@.len() - i,
    {
        let b = s[i];
        r.push(if 65 <= b && b <= 90 { b + 32 } else { b });
        i += 1;
        assert(r@ =~= lower(s@.take(i as int)));
    }
    assert(s@.take(s@.len() as int) =~= s@);
    r
}

/// `s` in ASCII upper case.
pub fn upper_bytes(s: &[u8]) -> (r: Vec<u8>)
    ensures
        r@ == upper(s@),
{
    let mut r: Vec<u8> = Vec::new();
    let mut i: usize = 0;
    while i < s.len()
        invariant
            i <= s@.len(),
            r@ == upper(s@.take(i as int)),
        decreases s@.len() - i,
    {
        let b = s[i];
        r.push(if 97 <= b && b <= 122 { b - 32 } else { b });
        i += 1;
        assert(r@ =~= upper(s@.take(i as int)));
    }
    assert(s@.take(s@.len() as int) =~= s@);
    r
}

// ---------------------------------------------------------------------------
// Decimal numbers
// ---------------------------------------------------------------------------

/// Every byte of `s` is an ASCII digit.
pub open spec fn all_digits(s: Seq<u8>) -> bool {
    forall|i: int| 0 <= i < s.len() ==> 48 <= #[trigger] s[i] <= 57
}

/// The value of a string of ASCII digits.
pub open spec fn digits_value(s: Seq<u8>) -> int
    decreases s.len(),
{
    if s.len() == 0 { 0 } else { digits_value(s.drop_last()) * 10 + (s.last() - 48) }
}

/// An unsigned decimal number as text: an optional `+`, then at least one
/// digit; `None` when it is not one, or exceeds the largest `usize`.
pub open spec fn spec_parse_usize(s: Seq<u8>) -> Option<int> {
    let d = if s.len() > 0 && s[0] == 43 { s.drop_first() } else { s };
    if d.len() > 0 && all_digits(d) && digits_value(d) <= usize::MAX {
        Some(digits_value(d))
    } else {
        None
    }
}

proof fn lemma_digits_value_mono(s: Seq<u8>, i: int)
    requires
        all_digits(s),
        0 <= i <= s.len(),
    ensures
        0 <= digits_value(s.take(i)) <= digits_value(s),
    decreases s.len(),
{
    if s.len() > 0 {
        if i < s.len() {
            assert(s.drop_last().take(i) =~= s.take(i));
            lemma_digits_value_mono(s.drop_last(), i);
        } else {
            assert(s.take(i) =~= s);
            lemma_digits_value_mono(s.drop_last(), i - 1);
            assert(s.drop_last().take(i - 1) =~= s.drop_last());
        }
    } else {
        assert(s.take(i) =~= s);
    }
}

/// Parse an unsigned decimal number.
#[verifier::loop_isolation(false)]
pub fn parse_usize(s: &[u8]) -> (r: Option<usize>)
    ensures
        match r {
            Some(n) => spec_parse_usize(s@) == Some(n as int),
            None => spec_parse_usize(s@) is None,
        },
{
    let start: usize = if s.len() > 0 && s[0] == 43 { 1 } else { 0 };
    let d = vstd::slice::slice_subrange(s, start, s.len());
    assert(d@ =~= (if s@.len() > 0 && s@[0] == 43 { s@.drop_first() } else { s@ }));
    if d.len() == 0 {
        return None;
    }
    let mut v: usize = 0;
    let mut i: usize = 0;
    while i < d.len()
        invariant
            i <= d@.len(),
            all_digits(d@.take(i as int)),
            v == digits_value(d@.take(i as int)),
        decreases d@.len() - i,
    {
        let b = d[i];
        if b < 48 || b > 57 {
            assert(!all_digits(d@));
            return None;
        }
        assert(d@.take(i + 1).drop_last() =~= d@.take(i as int));
        let next = v.checked_mul(10);
        let next = match next {
            Some(x) => x.checked_add((b - 48) as usize),
            None => None,
        };
        match next {
            Some(x) => {
                v = x;
            },
            None => {
                proof {
                    assert(all_digits(d@.take(i + 1)));
                    if all_digits(d@) {
                        assert(d@.take(i + 1) =~= d@.take(i + 1));
                        lemma_digits_value_mono(d@, i + 1);
                    }
                }
                return None;
            },
        }
        i += 1;
    }
    assert(d@.take(d@.len() as int) =~= d@);
    Some(v)
}

// ---------------------------------------------------------------------------
// Lines and headers
// ---------------------------------------------------------------------------

/// The index of the first line feed of `s` from `i` on (or the end).
pub open spec fn line_feed(s: Seq<u8>, i: int) -> int
    decreases s.len() - i,
{
    if i < 0 || i >= s.len() || s[i] == 10 { i } else { line_feed(s, i + 1) }
}

proof fn lemma_line_feed(s: Seq<u8>, i: int)
    requires
        0 <= i <= s.len(),
    ensures
        i <= line_feed(s, i) <= s.len(),
        forall|k: int| i <= k < line_feed(s, i) ==> s[k] != 10,
        line_feed(s, i) < s.len() ==> s[line_feed(s, i)] == 10,
    decreases s.len() - i,
{
    if i < s.len() && s[i] != 10 {
        lemma_line_feed(s, i + 1);
    }
}

/// The line of `s` starting at `p`: up to the next line feed, without a
/// carriage return before that line feed.
pub open spec fn line_at(s: Seq<u8>, p: int) -> Seq<u8> {
    let e = line_feed(s, p);
    if e < s.len() && e > p && s[e - 1] == 13 { s.subrange(p, e - 1) } else { s.subrange(p, e) }
}

/// The lines of `s` from position `p` on, split at line feeds (a final line
/// feed does not start another line).
pub open spec fn lines_from(s: Seq<u8>, p: int) -> Seq<Seq<u8>>
    decreases s.len() + 1 - p,
{
    if p < 0 || p >= s.len() || line_feed(s, p) < p || line_feed(s, p) > s.len() {
        Seq::empty()
    } else {
        seq![line_at(s, p)] + lines_from(s, line_feed(s, p) + 1)
    }
}

/// The lines of `s`.
pub open spec fn lines(s: Seq<u8>) -> Seq<Seq<u8>> {
    lines_from(s, 0)
}

/// The index of the first colon of `s` from `i` on (or the end).
pub open spec fn colon_at(s: Seq<u8>, i: int) -> int
    decreases s.len() - i,
{
    if i < 0 || i >= s.len() || s[i] == 58 { i } else { colon_at(s, i + 1) }
}

/// Bounds of `colon_at`, and that it stops at a colon when not at the end.
pub proof fn lemma_colon_at(s: Seq<u8>, i: int)
    requires
        0 <= i <= s.len(),
    ensures
        i <= colon_at(s, i) <= s.len(),
        colon_at(s, i) < s.len() ==> s[colon_at(s, i)] == 58,
    decreases s.len() - i,
{
    if i < s.len() && s[i] != 58 {
        lemma_colon_at(s, i + 1);
    }
}

/// The value of the last header line among `ls` whose name, trimmed and in
/// lower case, is `key`: the text after its first colon, trimmed.
pub open spec fn header_lookup(ls: Seq<Seq<u8>>, key: Seq<u8>) -> Option<Seq<u8>>
    decreases ls.len(),
{
    if ls.len() == 0 {
        None
    } else {
        let l = ls.last();
        let c = colon_at(l, 0);
        if c < l.len() && lower(trim(l.take(c))) == key {
            Some(trim(l.skip(c + 1)))
        } else {
            header_lookup(ls.drop_last(), key)
        }
    }
}

// ---------------------------------------------------------------------------
// How lines and header lookups compose
// ---------------------------------------------------------------------------

/// Carriage return and line feed.
pub open spec fn crlf() -> Seq<u8> {
    seq![13u8, 10u8]
}

pub(crate) proof fn lemma_line_feed_shift(x: Seq<u8>, y: Seq<u8>, p: int)
    requires
        0 <= p <= y.len(),
    ensures
        line_feed(x + y, x.len() + p) == x.len() + line_feed(y, p),
    decreases y.len() - p,
{
    let s = x + y;
    if p < y.len() {
        assert(s[x.len() + p] == y[p]);
        if y[p] != 10 {
            lemma_line_feed_shift(x, y, p + 1);
        }
    }
}

pub(crate) proof fn lemma_lines_shift(x: Seq<u8>, y: Seq<u8>, p: int)
    requires
        0 <= p,
    ensures
        lines_from(x + y, x.len() + p) == lines_from(y, p),
    decreases y.len() + 1 - p,
{
    let s = x + y;
    if p < y.len() {
        lemma_line_feed_shift(x, y, p);
        lemma_line_feed(y, p);
        let e = line_feed(y, p);
        assert(line_at(s, x.len() + p) =~= line_at(y, p)) by {
            if e < y.len() && e > p && y[e - 1] == 13 {
                assert(s[x.len() + e - 1] == y[e - 1]);
            } else if e < y.len() && e > p {
                assert(s[x.len() + e - 1] == y[e - 1]);
            }
        }
        lemma_lines_shift(x, y, e + 1);
    }
}

/// The lines of a text with no line feed from `p` on to `q`, where a line
/// feed or the end follows.
proof fn lemma_line_feed_run(s: Seq<u8>, p: int, q: int)
    requires
        0 <= p <= q <= s.len(),
        forall|k: int| p <= k < q ==> s[k] != 10,
        q == s.len() || s[q] == 10,
    ensures
        line_feed(s, p) == q,
    decreases q - p,
{
    if p < q {
        lemma_line_feed_run(s, p + 1, q);
    }
}

/// Splitting at a line end: the lines of `m`, CR LF, `t` are those of `m`
/// and then those of `t`, when `m` does not end with a line feed.
pub(crate) proof fn lemma_lines_split(m: Seq<u8>, t: Seq<u8>, p: int)
    requires
        m.len() > 0,
        m.last() != 10,
        0 <= p < m.len(),
    ensures
        lines_from(m + crlf() + t, p) == lines_from(m, p) + lines_from(t, 0),
    decreases m.len() - p,
{
    let s = m + crlf() + t;
    lemma_line_feed(m, p);
    let e = line_feed(m, p);
    assert forall|k: int| p <= k < e implies s[k] != 10 by {
        assert(s[k] == m[k]);
    }
    if e < m.len() {
        assert(s[e] == m[e]);
        lemma_line_feed_run(s, p, e);
        assert(line_at(s, p) =~= line_at(m, p)) by {
            if e > p {
                assert(s[e - 1] == m[e - 1]);
            }
        }
        if e + 1 == m.len() {
            assert(m.last() == m[e]);
        }
        lemma_lines_split(m, t, e + 1);
    } else {
        assert(s[m.len() as int] == 13);
        assert(s[m.len() as int + 1] == 10);
        lemma_line_feed_run(s, p, m.len() as int + 1);
        assert(line_at(s, p) =~= line_at(m, p));
        assert(s =~= (m + crlf()) + t);
        lemma_lines_shift(m + crlf(), t, 0);
        assert(lines_from(m, e + 1) =~= Seq::<Seq<u8>>::empty());
    }
    assert(lines_from(s, p) =~= lines_from(m, p) + lines_from(t, 0));
}

/// A non-empty text with no line feed is one line.
pub(crate) proof fn lemma_single_line(x: Seq<u8>)
    requires
        x.len() > 0,
        forall|k: int| 0 <= k < x.len() ==> x[k] != 10,
    ensures
        lines(x) == seq![x],
{
    lemma_line_feed_run(x, 0, x.len() as int);
    assert(line_at(x, 0) =~= x);
    assert(lines_from(x, x.len() as int + 1) =~= Seq::<Seq<u8>>::empty());
    assert(lines(x) =~= seq![x]);
}

/// A lookup over `a` then `b` finds what it finds in `b`, else what it
/// finds in `a`.
pub(crate) proof fn lemma_header_lookup_append(a: Seq<Seq<u8>>, b: Seq<Seq<u8>>, key: Seq<u8>)
    ensures
        header_lookup(a + b, key) == (if header_lookup(b, key) is Some {
            header_lookup(b, key)
        } else {
            header_lookup(a, key)
        }),
    decreases b.len(),
{
    if b.len() == 0 {
        assert(a + b =~= a);
    } else {
        assert((a + b).drop_last() =~= a + b.drop_last());
        assert((a + b).last() == b.last());
        lemma_header_lookup_append(a, b.drop_last(), key);
    }
}

/// What a server reads from the head of a request.
pub struct RequestHead {
    /// The method, in ASCII upper case.
    pub method: Vec<u8>,
    pub path: Vec<u8>,
    /// The announced body length, 0 when absent or not a number.
    pub content_length: usize,
}

/// The bytes of "content-length".
pub open spec fn content_length_key() -> Seq<u8> {
    seq![99u8, 111u8, 110u8, 116u8, 101u8, 110u8, 116u8, 45u8, 108u8, 101u8, 110u8, 103u8, 116u8, 104u8]
}

/// The request line and headers of the request head `head` (the bytes
/// before its blank line): the first two words of the first line are method
/// (upper-cased) and path; the body length is the last `Content-Length`
/// header (name matched in any case) when it is a number, else 0.
pub open spec fn spec_request_head(head: Seq<u8>) -> (Seq<u8>, Seq<u8>, int) {
    let ls = lines(head);
    let first = if ls.len() > 0 { ls[0] } else { Seq::empty() };
    let m0 = skip_ws(first, 0);
    let m1 = word_end(first, m0);
    let p0 = skip_ws(first, m1);
    let p1 = word_end(first, p0);
    let headers = if ls.len() > 0 { ls.drop_first() } else { Seq::empty() };
    let len = match header_lookup(headers, content_length_key()) {
        Some(v) => match spec_parse_usize(v) {
            Some(n) => n,
            None => 0,
        },
        None => 0,
    };
    (upper(first.subrange(m0, m1)), first.subrange(p0, p1), len)
}

/// Whether `a` and `b` hold the same bytes.
pub fn bytes_eq(a: &[u8], b: &[u8]) -> (r: bool)
    ensures
        r == (a@ == b@),
{
    if a.len() != b.len() {
        return false;
    }
    let mut i: usize = 0;
    while i < a.len()
        invariant
            a@.len() == b@.len(),
            i <= a@.len(),
            forall|j: int| 0 <= j < i ==> a@[j] == b@[j],
        decreases a@.len() - i,
    {
        if a[i] != b[i] {
            return false;
        }
        i += 1;
    }
    assert(a@ =~= b@);
    true
}

/// The end of the line of `s` starting at `p`, and where the next starts.
pub fn line_bounds(s: &[u8], p: usize) -> (r: (usize, usize))
    requires
        p < s@.len(),
        s@.len() < usize::MAX,
    ensures
        r.1 == line_feed(s@, p as int) + 1,
        p < r.1,
        s@.subrange(p as int, r.0 as int) == line_at(s@, p as int),
        p <= r.0 <= s@.len(),
        r.1 <= s@.len() + 1,
{
    proof {
        lemma_line_feed(s@, p as int);
    }
    let mut e = p;
    while e < s.len() && s[e] != 10
        invariant
            p <= e <= s@.len(),
            line_feed(s@, p as int) == line_feed(s@, e as int),
        decreases s@.len() - e,
    {
        e += 1;
    }
    let end = if e < s.len() && e > p && s[e - 1] == 13 { e - 1 } else { e };
    (end, e + 1)
}

/// Read the method, path and body length from a request head.
pub fn parse_request_head(head: &[u8]) -> (r: RequestHead)
    requires
        head@.len() < usize::MAX,
    ensures
        (r.method@, r.path@, r.content_length as int) == spec_request_head(head@),
{
    if head.len() == 0 {
        proof {
            lemma_skip_ws(Seq::<u8>::empty(), 0);
            lemma_word_end(Seq::<u8>::empty(), 0);
            assert(lines(head@) =~= Seq::<Seq<u8>>::empty());
            assert(upper(Seq::<u8>::empty()) =~= Seq::<u8>::empty());
        }
        return RequestHead { method: Vec::new(), path: Vec::new(), content_length: 0 };
    }
    let (e0, mut p) = line_bounds(head, 0);
    let first = vstd::slice::slice_subrange(head, 0, e0);
    let m0 = skip_ws_exec(first, 0);
    let m1 = word_end_exec(first, m0);
    let p0 = skip_ws_exec(first, m1);
    let p1 = word_end_exec(first, p0);
    let method = upper_bytes(vstd::slice::slice_subrange(first, m0, m1));
    let path = vstd::slice::slice_to_vec(vstd::slice::slice_subrange(first, p0, p1));
    let ghost all = lines(head@);
    let ghost done: Seq<Seq<u8>> = Seq::empty();
    proof {
        assert(all == seq![first@] + lines_from(head@, p as int));
        assert(all.drop_first() =~= lines_from(head@, p as int));
    }
    let mut value: Option<&[u8]> = None;
    while p < head.len()
        invariant
            p <= head@.len() + 1,
            head@.len() < usize::MAX,
            all.drop_first() == done + lines_from(head@, p as int),
            match value {
                Some(v) => header_lookup(done, content_length_key()) == Some(v@),
                None => header_lookup(done, content_length_key()) is None,
            },
        decreases head@.len() + 1 - p,
    {
        let (e, next) = line_bounds(head, p);
        let line = vstd::slice::slice_subrange(head, p, e);
        proof {
            lemma_colon_at(line@, 0);
        }
        let mut c: usize = 0;
        while c < line.len() && line[c] != 58
            invariant
                c <= line@.len(),
                colon_at(line@, 0) == colon_at(line@, c as int),
            decreases line@.len() - c,
        {
            c += 1;
        }
        if c < line.len() {
            let name = lower_bytes(trim_bytes(vstd::slice::slice_subrange(line, 0, c)));
            assert(line@.take(c as int) =~= line@.subrange(0, c as int));
            let key: [u8; 14] = [99, 111, 110, 116, 101, 110, 116, 45, 108, 101, 110, 103, 116, 104];
            assert(key@ == content_length_key());
            let is_key = bytes_eq(name.as_slice(), key.as_slice());
            if is_key {
                assert(name@ =~= content_length_key());
                let v = trim_bytes(vstd::slice::slice_subrange(line, c + 1, line.len()));
                assert(line@.skip(c + 1) =~= line@.subrange(c + 1, line@.len() as int));
                value = Some(v);
            }
        }
        proof {
            let old_done = done;
            done = done.push(line@);
            assert(done.drop_last() =~= old_done);
            assert(lines_from(head@, p as int) == seq![line@] + lines_from(head@, next as int));
            assert(all.drop_first() =~= done + lines_from(head@, next as int));
        }
        p = next;
    }
    let content_length = match value {
        Some(v) => match parse_usize(v) {
            Some(n) => n,
            None => 0,
        },
        None => 0,
    };
    proof {
        assert(lines_from(head@, p as int) =~= Seq::<Seq<u8>>::empty());
        assert(done =~= all.drop_first());
        assert(all[0] == first@);
    }
    RequestHead { method, path, content_length }
}

} // verus!
