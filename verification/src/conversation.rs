//! What each side of an AirDrop exchange reads of what the other wrote:
//! the head of a POST as the receive server parses it, and a response as
//! the client reads it.

use vstd::prelude::*;
use crate::client::{
    spec_post_head, post_head_lines, head_text, request_line, host_line, length_line, header_line,
    lemma_dec_chars_digits, lemma_first_blank_unique, ok_status_line,
};
use crate::util::starts_with;
use crate::http::{
    crlf, crlf2_at, lines, is_ws, skip_ws, word_end, trim, trim_end_at, lower, upper, colon_at,
    header_lookup, content_length_key, spec_parse_usize, all_digits, digits_value, spec_request_head,
    lemma_lines_split, lemma_single_line, lemma_header_lookup_append,
};
use crate::text::{dec_chars, hex_char};

verus! {

// ---------------------------------------------------------------------------
// Text as bytes
// ---------------------------------------------------------------------------

/// Text as bytes, one per character.
pub open spec fn ascii_bytes(s: Seq<char>) -> Seq<u8> {
    s.map_values(|c: char| c as u8)
}

/// ASCII text that fits on one line: no carriage return, no line feed.
pub open spec fn one_line(s: Seq<char>) -> bool {
    forall|i: int| 0 <= i < s.len() ==> '\0' <= #[trigger] s[i] <= '\u{7f}' && s[i] != '\r' && s[i] != '\n'
}

/// A non-empty line: no carriage return, no line feed.
pub open spec fn line_free(x: Seq<u8>) -> bool {
    x.len() > 0 && forall|k: int| 0 <= k < x.len() ==> #[trigger] x[k] != 13 && x[k] != 10
}

/// Every carriage return of `s` is followed by a line feed, and that by
/// no carriage return.
pub open spec fn cr_ok(s: Seq<u8>) -> bool {
    forall|k: int|
        0 <= k < s.len() && #[trigger] s[k] == 13 ==> k + 1 < s.len() && s[k + 1] == 10 && (k + 2 < s.len() ==> s[k + 2] != 13)
}

/// Lines joined by CR LF.
pub open spec fn join_lines(ls: Seq<Seq<u8>>) -> Seq<u8>
    decreases ls.len(),
{
    if ls.len() == 0 {
        Seq::empty()
    } else if ls.len() == 1 {
        ls[0]
    } else {
        join_lines(ls.drop_last()) + crlf() + ls.last()
    }
}

/// Lines, each ended by CR LF.
pub open spec fn head_bytes(ls: Seq<Seq<u8>>) -> Seq<u8>
    decreases ls.len(),
{
    if ls.len() == 0 {
        Seq::empty()
    } else {
        head_bytes(ls.drop_last()) + ls.last() + crlf()
    }
}

proof fn lemma_ascii_bytes_add(a: Seq<char>, b: Seq<char>)
    ensures
        ascii_bytes(a + b) == ascii_bytes(a) + ascii_bytes(b),
{
    assert(ascii_bytes(a + b) =~= ascii_bytes(a) + ascii_bytes(b));
}

proof fn lemma_crlf_text()
    ensures
        ascii_bytes("\r\n"@) == crlf(),
        one_line("\r\n"@) == false,
{
    reveal_strlit("\r\n");
    assert(ascii_bytes("\r\n"@) =~= crlf());
}

proof fn lemma_head_text_bytes(ls: Seq<Seq<char>>)
    ensures
        ascii_bytes(head_text(ls)) == head_bytes(ls.map_values(|l: Seq<char>| ascii_bytes(l))),
    decreases ls.len(),
{
    let f = |l: Seq<char>| ascii_bytes(l);
    if ls.len() > 0 {
        lemma_head_text_bytes(ls.drop_last());
        assert(ls.map_values(f).drop_last() =~= ls.drop_last().map_values(f));
        lemma_crlf_text();
        lemma_ascii_bytes_add(head_text(ls.drop_last()) + ls.last(), "\r\n"@);
        lemma_ascii_bytes_add(head_text(ls.drop_last()), ls.last());
    } else {
        assert(ascii_bytes(head_text(ls)) =~= head_bytes(ls.map_values(f)));
    }
}

proof fn lemma_head_bytes_join(ls: Seq<Seq<u8>>)
    requires
        ls.len() > 0,
    ensures
        head_bytes(ls) == join_lines(ls) + crlf(),
    decreases ls.len(),
{
    if ls.len() == 1 {
        assert(ls.drop_last() =~= Seq::<Seq<u8>>::empty());
        assert(head_bytes(ls.drop_last()) =~= Seq::<u8>::empty());
        assert(ls.last() == ls[0]);
        assert(head_bytes(ls) =~= join_lines(ls) + crlf());
    } else {
        lemma_head_bytes_join(ls.drop_last());
        assert(head_bytes(ls) =~= join_lines(ls) + crlf());
    }
}

/// Joined lines read back as those lines, and their carriage returns are
/// those of the line ends.
proof fn lemma_join_lines(ls: Seq<Seq<u8>>)
    requires
        ls.len() > 0,
        forall|i: int| 0 <= i < ls.len() ==> line_free(#[trigger] ls[i]),
    ensures
        lines(join_lines(ls)) == ls,
        cr_ok(join_lines(ls) + crlf()),
        join_lines(ls).len() > 0,
        join_lines(ls).last() == ls.last().last(),
    decreases ls.len(),
{
    let j = join_lines(ls);
    if ls.len() == 1 {
        assert(line_free(ls[0]));
        lemma_single_line(ls[0]);
        assert(lines(j) =~= ls);
        let s = j + crlf();
        assert forall|k: int| 0 <= k < s.len() && #[trigger] s[k] == 13 implies k + 1 < s.len() && s[k + 1] == 10 && (k + 2 < s.len() ==> s[k + 2] != 13) by {
            if k < j.len() {
                assert(s[k] == ls[0][k]);
            }
        }
    } else {
        let init = ls.drop_last();
        let last = ls.last();
        assert(forall|i: int| 0 <= i < init.len() ==> init[i] == ls[i]);
        lemma_join_lines(init);
        let m = join_lines(init);
        assert(line_free(ls[ls.len() - 1]));
        assert(line_free(init[init.len() - 1]));
        lemma_lines_split(m, last, 0);
        lemma_single_line(last);
        assert(lines(j) =~= ls);
        let s = j + crlf();
        let a = m + crlf();
        assert forall|k: int| 0 <= k < s.len() && #[trigger] s[k] == 13 implies k + 1 < s.len() && s[k + 1] == 10 && (k + 2 < s.len() ==> s[k + 2] != 13) by {
            if k < a.len() {
                assert(s[k] == a[k]);
                assert(a[k] == 13);
                assert(k + 1 < a.len() && a[k + 1] == 10);
                assert(s[k + 1] == a[k + 1]);
                if k + 2 < a.len() {
                    assert(s[k + 2] == a[k + 2]);
                } else {
                    assert(s[k + 2] == last[0]);
                }
            } else if k < a.len() + last.len() {
                assert(s[k] == last[k - a.len()]);
            }
        }
    }
}

// ---------------------------------------------------------------------------
// The lines of a POST head
// ---------------------------------------------------------------------------

proof fn lemma_one_line_add(a: Seq<char>, b: Seq<char>)
    requires
        one_line(a),
        one_line(b),
    ensures
        one_line(a + b),
{
    assert forall|i: int| 0 <= i < (a + b).len() implies '\0' <= #[trigger] (a + b)[i] <= '\u{7f}' && (a + b)[i] != '\r' && (a + b)[i] != '\n' by {
        if i < a.len() {
            assert((a + b)[i] == a[i]);
        } else {
            assert((a + b)[i] == b[i - a.len()]);
        }
    }
}

proof fn lemma_one_line_bytes(s: Seq<char>)
    requires
        one_line(s),
        s.len() > 0,
    ensures
        line_free(ascii_bytes(s)),
        vstd::utf8::is_ascii_chars(s),
{
    assert forall|k: int| 0 <= k < ascii_bytes(s).len() implies #[trigger] ascii_bytes(s)[k] != 13 && ascii_bytes(s)[k] != 10 by {
        assert(s[k] != '\r' && s[k] != '\n' && s[k] <= '\u{7f}');
        assert(ascii_bytes(s)[k] == s[k] as u8);
    }
}

proof fn lemma_digits_one_line(n: nat)
    ensures
        one_line(dec_chars(n)),
        dec_chars(n).len() > 0,
{
    lemma_dec_chars_digits(n);
}

proof fn lemma_head_text_ascii(ls: Seq<Seq<char>>)
    requires
        forall|i: int| 0 <= i < ls.len() ==> vstd::utf8::is_ascii_chars(#[trigger] ls[i]),
    ensures
        vstd::utf8::is_ascii_chars(head_text(ls)),
    decreases ls.len(),
{
    if ls.len() > 0 {
        let init = ls.drop_last();
        assert(forall|i: int| 0 <= i < init.len() ==> init[i] == ls[i]);
        lemma_head_text_ascii(init);
        reveal_strlit("\r\n");
        let h = head_text(init);
        let l = ls.last();
        assert(vstd::utf8::is_ascii_chars(ls[ls.len() - 1]));
        let t = head_text(ls);
        assert forall|k: int| 0 <= k < t.len() implies '\0' <= #[trigger] t[k] <= '\u{7f}' by {
            if k < h.len() {
                assert(t[k] == h[k]);
            } else if k < h.len() + l.len() {
                assert(t[k] == l[k - h.len()]);
            } else {
                assert(t[k] == "\r\n"@[k - h.len() - l.len()]);
            }
        }
    }
}

/// What the law asks of the text a POST is built from: a non-empty URL
/// without whitespace, a host, and extra headers on one line each, names
/// without a colon and other than `Content-Length`.
pub open spec fn post_text_ok(url: Seq<char>, host: Seq<char>, extra: Seq<(Seq<char>, Seq<char>)>) -> bool {
    &&& url.len() > 0
    &&& one_line(url)
    &&& forall|i: int| 0 <= i < url.len() ==> !is_ws(#[trigger] url[i] as u8)
    &&& one_line(host)
    &&& forall|i: int|
        0 <= i < extra.len() ==> {
            &&& one_line(#[trigger] extra[i].0)
            &&& one_line(extra[i].1)
            &&& forall|j: int| 0 <= j < extra[i].0.len() ==> extra[i].0[j] != ':'
            &&& lower(trim(ascii_bytes(extra[i].0))) != content_length_key()
        }
}

proof fn lemma_post_lines_one_line(url: Seq<char>, host: Seq<char>, port: u16, n: nat, extra: Seq<(Seq<char>, Seq<char>)>)
    requires
        post_text_ok(url, host, extra),
    ensures
        forall|i: int|
            0 <= i < post_head_lines(url, host, port, n, extra).len() ==> one_line(#[trigger] post_head_lines(url, host, port, n, extra)[i])
                && post_head_lines(url, host, port, n, extra)[i].len() > 0,
{
    let ls = post_head_lines(url, host, port, n, extra);
    reveal_strlit("POST ");
    reveal_strlit(" HTTP/1.1");
    reveal_strlit("Host: ");
    reveal_strlit(":");
    reveal_strlit("Content-Type: application/octet-stream");
    reveal_strlit("Connection: keep-alive");
    reveal_strlit("Accept: */*");
    reveal_strlit("User-Agent: AirDrop/1.0");
    reveal_strlit("Accept-Language: en-us");
    reveal_strlit("Accept-Encoding: br, gzip, deflate");
    reveal_strlit("Content-Length: ");
    reveal_strlit(": ");
    assert(one_line("POST "@));
    assert(one_line(" HTTP/1.1"@));
    assert(one_line("Host: "@));
    assert(one_line(":"@));
    assert(one_line("Content-Type: application/octet-stream"@));
    assert(one_line("Connection: keep-alive"@));
    assert(one_line("Accept: */*"@));
    assert(one_line("User-Agent: AirDrop/1.0"@));
    assert(one_line("Accept-Language: en-us"@));
    assert(one_line("Accept-Encoding: br, gzip, deflate"@));
    assert(one_line("Content-Length: "@));
    assert(one_line(": "@));
    lemma_one_line_add("POST "@, url);
    lemma_one_line_add("POST "@ + url, " HTTP/1.1"@);
    lemma_digits_one_line(port as nat);
    lemma_one_line_add("Host: "@, host);
    lemma_one_line_add("Host: "@ + host, ":"@);
    lemma_one_line_add("Host: "@ + host + ":"@, dec_chars(port as nat));
    lemma_digits_one_line(n);
    lemma_one_line_add("Content-Length: "@, dec_chars(n));
    assert forall|i: int| 0 <= i < ls.len() implies one_line(#[trigger] ls[i]) && ls[i].len() > 0 by {
        if i >= 9 {
            let e = extra[i - 9];
            assert(ls[i] == header_line(e.0, e.1));
            lemma_one_line_add(e.0, ": "@);
            lemma_one_line_add(e.0 + ": "@, e.1);
        }
    }
}

// ---------------------------------------------------------------------------
// What the server reads of those lines
// ---------------------------------------------------------------------------

proof fn lemma_skip_ws_run(s: Seq<u8>, p: int, q: int)
    requires
        0 <= p <= q <= s.len(),
        forall|k: int| p <= k < q ==> is_ws(#[trigger] s[k]),
        q == s.len() || !is_ws(s[q]),
    ensures
        skip_ws(s, p) == q,
    decreases q - p,
{
    if p < q {
        lemma_skip_ws_run(s, p + 1, q);
    }
}

proof fn lemma_word_end_run(s: Seq<u8>, p: int, q: int)
    requires
        0 <= p <= q <= s.len(),
        forall|k: int| p <= k < q ==> !is_ws(#[trigger] s[k]),
        q == s.len() || is_ws(s[q]),
    ensures
        word_end(s, p) == q,
    decreases q - p,
{
    if p < q {
        lemma_word_end_run(s, p + 1, q);
    }
}

proof fn lemma_colon_run(s: Seq<u8>, p: int, q: int)
    requires
        0 <= p <= q <= s.len(),
        forall|k: int| p <= k < q ==> #[trigger] s[k] != 58,
        q == s.len() || s[q] == 58,
    ensures
        colon_at(s, p) == q,
    decreases q - p,
{
    if p < q {
        lemma_colon_run(s, p + 1, q);
    }
}

/// The bytes of "POST".
pub open spec fn post_method() -> Seq<u8> {
    seq![80u8, 79u8, 83u8, 84u8]
}

proof fn lemma_request_line_words(url: Seq<char>)
    requires
        url.len() > 0,
        one_line(url),
        forall|i: int| 0 <= i < url.len() ==> !is_ws(#[trigger] url[i] as u8),
    ensures
        ({
            let f = ascii_bytes(request_line(url));
            &&& skip_ws(f, 0) == 0
            &&& word_end(f, 0) == 4
            &&& skip_ws(f, 4) == 5
            &&& word_end(f, 5) == 5 + url.len()
            &&& upper(f.subrange(0, 4)) == post_method()
            &&& f.subrange(5, 5 + url.len() as int) == ascii_bytes(url)
        }),
{
    reveal_strlit("POST ");
    reveal_strlit(" HTTP/1.1");
    let f = ascii_bytes(request_line(url));
    let u = url.len() as int;
    assert(f[0] == 80u8 && f[1] == 79u8 && f[2] == 83u8 && f[3] == 84u8 && f[4] == 32u8);
    assert(f[5 + u] == 32u8);
    lemma_skip_ws_run(f, 0, 0);
    lemma_word_end_run(f, 0, 4);
    lemma_skip_ws_run(f, 4, 5);
    assert forall|k: int| 5 <= k < 5 + u implies !is_ws(#[trigger] f[k]) by {
        assert(f[k] == url[k - 5] as u8);
    }
    lemma_word_end_run(f, 5, 5 + u);
    assert(upper(f.subrange(0, 4)) =~= post_method());
    assert(f.subrange(5, 5 + u) =~= ascii_bytes(url));
}

proof fn lemma_digit_byte(d: int)
    requires
        0 <= d < 10,
    ensures
        hex_char(d) as u8 == 48 + d,
{
}

proof fn lemma_dec_digits_value(n: nat)
    ensures
        all_digits(ascii_bytes(dec_chars(n))),
        digits_value(ascii_bytes(dec_chars(n))) == n,
        ascii_bytes(dec_chars(n)).len() > 0,
    decreases n,
{
    lemma_dec_chars_digits(n);
    let d = ascii_bytes(dec_chars(n));
    assert forall|i: int| 0 <= i < d.len() implies 48 <= #[trigger] d[i] <= 57 by {
        assert('0' <= dec_chars(n)[i] <= '9');
    }
    if n >= 10 {
        lemma_dec_digits_value(n / 10);
        assert(d.drop_last() =~= ascii_bytes(dec_chars(n / 10)));
        assert(d.last() == hex_char(n as int % 10) as u8);
        lemma_digit_byte(n as int % 10);
        assert(digits_value(d) == digits_value(d.drop_last()) * 10 + (d.last() - 48));
        assert(digits_value(d.drop_last()) == n / 10);
        assert((n / 10) * 10 + n % 10 == n);
    } else {
        assert(d.drop_last() =~= Seq::<u8>::empty());
        assert(d.last() == hex_char(n as int) as u8);
        lemma_digit_byte(n as int);
        assert(digits_value(d) == digits_value(d.drop_last()) * 10 + (d.last() - 48));
    }
}

proof fn lemma_length_line_value(n: nat)
    requires
        n <= usize::MAX,
    ensures
        header_lookup(seq![ascii_bytes(length_line(n))], content_length_key()) == Some(ascii_bytes(dec_chars(n))),
        spec_parse_usize(ascii_bytes(dec_chars(n))) == Some(n as int),
{
    reveal_strlit("Content-Length: ");
    let c = ascii_bytes(length_line(n));
    let d = ascii_bytes(dec_chars(n));
    lemma_dec_digits_value(n);
    lemma_ascii_bytes_add("Content-Length: "@, dec_chars(n));
    assert(c.len() == 16 + d.len());
    assert forall|k: int| 0 <= k < 14 implies #[trigger] c[k] != 58 by {}
    assert(c[14] == 58u8);
    lemma_colon_run(c, 0, 14);
    let name = c.take(14);
    assert(!is_ws(name[0]) && !is_ws(name[13]));
    lemma_skip_ws_run(name, 0, 0);
    assert(trim_end_at(name, 0, 14) == 14);
    assert(trim(name) =~= name);
    assert(lower(name) =~= content_length_key());
    let rest = c.skip(15);
    assert(rest[0] == 32u8);
    assert(rest.len() == d.len() + 1);
    assert(rest[1] == d[0]);
    lemma_skip_ws_run(rest, 0, 1);
    assert(rest[rest.len() - 1] == d[d.len() - 1]);
    assert(trim_end_at(rest, 1, rest.len() as int) == rest.len());
    assert(trim(rest) =~= d);
    let ls = seq![c];
    assert(ls.last() == c);
    assert(header_lookup(ls, content_length_key()) == Some(trim(c.skip(15))));
    assert(d[0] != 43u8);
}

/// The byte lines of the extra headers.
pub open spec fn extra_lines(extra: Seq<(Seq<char>, Seq<char>)>) -> Seq<Seq<u8>> {
    Seq::new(extra.len(), |i: int| ascii_bytes(header_line(extra[i].0, extra[i].1)))
}

proof fn lemma_extra_lines_no_match(extra: Seq<(Seq<char>, Seq<char>)>)
    requires
        forall|i: int|
            0 <= i < extra.len() ==> {
                &&& one_line(#[trigger] extra[i].0)
                &&& forall|j: int| 0 <= j < extra[i].0.len() ==> extra[i].0[j] != ':'
                &&& lower(trim(ascii_bytes(extra[i].0))) != content_length_key()
            },
    ensures
        header_lookup(extra_lines(extra), content_length_key()) is None,
    decreases extra.len(),
{
    if extra.len() > 0 {
        let init = extra.drop_last();
        assert(forall|i: int| 0 <= i < init.len() ==> init[i] == extra[i]);
        lemma_extra_lines_no_match(init);
        let ls = extra_lines(extra);
        assert(ls.drop_last() =~= extra_lines(init));
        let e = extra[extra.len() - 1];
        let l = ls.last();
        assert(l == ascii_bytes(header_line(e.0, e.1)));
        reveal_strlit(": ");
        let k = ascii_bytes(e.0);
        assert forall|j: int| 0 <= j < k.len() implies #[trigger] l[j] != 58 by {
            assert(e.0[j] != ':' && e.0[j] <= '\u{7f}');
            assert(l[j] == e.0[j] as u8);
        }
        assert(l[k.len() as int] == 58u8);
        lemma_colon_run(l, 0, k.len() as int);
        assert(l.take(k.len() as int) =~= k);
    }
}

// ---------------------------------------------------------------------------
// The law
// ---------------------------------------------------------------------------

/// A POST head the client writes, followed by its body, is read by the
/// receive server as a POST of that URL announcing that body length: the
/// head ends at its blank line and at no earlier one, the method is POST,
/// the path is the URL, and the length is the one announced. Holds when
/// the URL is non-empty and has no whitespace, the host and the extra
/// headers are ASCII on one line, and no extra header name holds a colon or
/// is `Content-Length`.
pub proof fn lemma_request_read_back(
    url: Seq<char>,
    host: Seq<char>,
    port: u16,
    body_len: usize,
    extra: Seq<(Seq<char>, Seq<char>)>,
    body: Seq<u8>,
)
    requires
        post_text_ok(url, host, extra),
    ensures
        ({
            let h = vstd::utf8::encode_utf8(spec_post_head(url, host, port, body_len as nat, extra));
            let r = h + body;
            &&& h.len() >= 4
            &&& crlf2_at(r, h.len() - 4)
            &&& forall|j: int| 0 <= j < h.len() - 4 ==> !crlf2_at(r, j)
            &&& spec_request_head(r.take(h.len() - 4)) == (post_method(), vstd::utf8::encode_utf8(url), body_len as int)
        }),
{
    let n = body_len as nat;
    let lc = post_head_lines(url, host, port, n, extra);
    lemma_post_lines_one_line(url, host, port, n, extra);
    let ls = lc.map_values(|l: Seq<char>| ascii_bytes(l));
    assert forall|i: int| 0 <= i < ls.len() implies line_free(#[trigger] ls[i]) && vstd::utf8::is_ascii_chars(lc[i]) by {
        lemma_one_line_bytes(lc[i]);
    }
    lemma_head_text_ascii(lc);
    let t = spec_post_head(url, host, port, n, extra);
    let ht = head_text(lc);
    reveal_strlit("\r\n");
    assert(vstd::utf8::is_ascii_chars(t)) by {
        assert forall|k: int| 0 <= k < t.len() implies '\0' <= #[trigger] t[k] <= '\u{7f}' by {
            if k < ht.len() {
                assert(t[k] == ht[k]);
            } else {
                assert(t[k] == "\r\n"@[k - ht.len()]);
            }
        }
    }
    vstd::utf8::is_ascii_chars_encode_utf8(t);
    let h = vstd::utf8::encode_utf8(t);
    assert(h =~= ascii_bytes(t));
    lemma_crlf_text();
    lemma_ascii_bytes_add(ht, "\r\n"@);
    lemma_head_text_bytes(lc);
    lemma_head_bytes_join(ls);
    let j = join_lines(ls);
    assert(h =~= j + crlf() + crlf());
    lemma_join_lines(ls);
    let r = h + body;
    let m = j + crlf();
    assert(crlf2_at(r, j.len() as int)) by {
        let e = j.len() as int;
        assert(r[e] == 13u8 && r[e + 1] == 10u8);
        assert(r[e + 2] == 13u8 && r[e + 3] == 10u8);
    }
    assert forall|q: int| 0 <= q < h.len() - 4 implies !crlf2_at(r, q) by {
        if crlf2_at(r, q) {
            assert(r[q] == m[q]);
            assert(r[q + 2] == m[q + 2]);
        }
    }
    assert(r.take(h.len() - 4) =~= j);
    // The request line.
    lemma_request_line_words(url);
    assert(ls[0] == ascii_bytes(request_line(url)));
    vstd::utf8::is_ascii_chars_encode_utf8(url);
    assert(vstd::utf8::encode_utf8(url) =~= ascii_bytes(url));
    // The headers.
    let key = content_length_key();
    lemma_length_line_value(n);
    lemma_extra_lines_no_match(extra);
    let fixed = ls.subrange(1, 8);
    assert(ls[8] == ascii_bytes(length_line(n)));
    assert(ls.drop_first() =~= (fixed + seq![ls[8]]) + extra_lines(extra));
    lemma_header_lookup_append(fixed + seq![ls[8]], extra_lines(extra), key);
    lemma_header_lookup_append(fixed, seq![ls[8]], key);
    assert(header_lookup(ls.drop_first(), key) == Some(ascii_bytes(dec_chars(n))));
}

// ---------------------------------------------------------------------------
// Responses
// ---------------------------------------------------------------------------

/// The first blank line of `h + body` starts where `h` ends its last four
/// bytes, when those are CR LF CR LF and no CR of `h` before them is two
/// bytes ahead of another CR.
proof fn lemma_first_blank(h: Seq<u8>, body: Seq<u8>)
    requires
        h.len() >= 4,
        crlf2_at(h, h.len() - 4),
        forall|j: int| 0 <= j < h.len() - 4 ==> !(#[trigger] h[j] == 13 && h[j + 2] == 13),
    ensures
        crlf2_at(h + body, h.len() - 4),
        forall|j: int| 0 <= j < h.len() - 4 ==> !crlf2_at(h + body, j),
{
    let r = h + body;
    assert forall|j: int| 0 <= j < h.len() - 4 implies !crlf2_at(r, j) by {
        assert(r[j] == h[j] && r[j + 2] == h[j + 2]);
    }
}

/// A response the server writes, head and then a body of the announced
/// length, is read by the client as a success exactly when its status is
/// 200, with that body. Holds for three-digit status codes.
pub proof fn lemma_response_read_back(status: u16, body: Seq<u8>)
    requires
        100 <= status <= 999,
    ensures
        ({
            let r = vstd::utf8::encode_utf8(crate::server::spec_response_head(status, body.len())) + body;
            &&& starts_with(r, ok_status_line()) == (status == 200)
            &&& exists|i: int| crlf2_at(r, i)
            &&& r.skip(
                (choose|i: int| crlf2_at(r, i) && forall|j: int| 0 <= j < i ==> !crlf2_at(r, j)) + 4,
            ) == body
        }),
{
    let c = crate::server::spec_response_head(status, body.len());
    let reason = crate::server::spec_reason(status);
    let d1 = dec_chars(status as nat);
    let d2 = dec_chars(body.len());
    reveal_strlit("HTTP/1.1 ");
    reveal_strlit(" ");
    reveal_strlit("\r\nContent-Length: ");
    reveal_strlit("\r\nConnection: close\r\n\r\n");
    reveal_strlit("OK");
    reveal_strlit("Bad Request");
    reveal_strlit("Not Acceptable");
    reveal_strlit("Unknown");
    lemma_dec_chars_digits(status as nat);
    lemma_dec_chars_digits(body.len());
    assert(d1 == seq![
        crate::text::hex_char(status as int / 100),
        crate::text::hex_char((status as int / 10) % 10),
        crate::text::hex_char(status as int % 10),
    ]) by {
        reveal_with_fuel(dec_chars, 3);
        assert((status as nat / 10) / 10 == status as int / 100);
    }
    let a = "HTTP/1.1 "@;
    let e = "\r\nContent-Length: "@;
    let f = "\r\nConnection: close\r\n\r\n"@;
    assert(c =~= a + d1 + " "@ + reason + e + d2 + f);
    let rl = reason.len() as int;
    let p1 = 13 + rl;
    let p2 = p1 + 18 + d2.len();
    let total = p2 + 23;
    assert(c.len() == total);
    assert(forall|k: int| 0 <= k < reason.len() ==> reason[k] != '\r' && reason[k] != '\n' && ' ' <= #[trigger] reason[k] <= 'z');
    assert(vstd::utf8::is_ascii_chars(c)) by {
        assert forall|k: int| 0 <= k < c.len() implies '\0' <= #[trigger] c[k] <= '\u{7f}' by {
            if k < 9 {
                assert(c[k] == a[k]);
            } else if k < 12 {
                assert(c[k] == d1[k - 9]);
            } else if k < 13 {
            } else if k < p1 {
                assert(c[k] == reason[k - 13]);
            } else if k < p1 + 18 {
                assert(c[k] == e[k - p1]);
            } else if k < p2 {
                assert(c[k] == d2[k - p1 - 18]);
            } else {
                assert(c[k] == f[k - p2]);
            }
        }
    }
    let h = vstd::utf8::encode_utf8(c);
    vstd::utf8::is_ascii_chars_encode_utf8(c);
    assert(h.len() == total);
    // Where the carriage returns are.
    assert forall|k: int| 0 <= k < total && #[trigger] h[k] == 13 implies k == p1 || k == p2 || k == p2 + 19 || k == p2 + 21 by {
        assert(c[k] as u8 == h[k]);
        if k < 9 {
            assert(c[k] == a[k]);
        } else if k < 12 {
            assert(c[k] == d1[k - 9]);
        } else if k < 13 {
        } else if k < p1 {
            assert(c[k] == reason[k - 13]);
        } else if k < p1 + 18 {
            assert(c[k] == e[k - p1]);
        } else if k < p2 {
            assert(c[k] == d2[k - p1 - 18]);
        } else {
            assert(c[k] == f[k - p2]);
        }
    }
    assert(c[p1 + 2] == e[2]);
    assert(c[p2 + 2] == f[2]);
    assert(h[p1 + 2] == 67 && h[p2 + 2] == 67);
    assert(c[p2 + 19] == f[19] && c[p2 + 20] == f[20] && c[p2 + 21] == f[21] && c[p2 + 22] == f[22]);
    assert(crlf2_at(h, total - 4));
    lemma_first_blank(h, body);
    let r = h + body;
    let i = choose|i: int| crlf2_at(r, i) && forall|j: int| 0 <= j < i ==> !crlf2_at(r, j);
    lemma_first_blank_unique(r, i, total - 4);
    assert(r.skip(total) =~= body);
    // The status line.
    assert(r.take(12) =~= h.take(12));
    if status == 200 {
        assert(d1 =~= seq!['2', '0', '0']) by {
            reveal_with_fuel(crate::text::hex_char, 1);
        }
        assert(h.take(12) =~= ok_status_line()) by {
            assert forall|k: int| 0 <= k < 12 implies h.take(12)[k] == ok_status_line()[k] by {
                assert(c[k] as u8 == h[k]);
                if k < 9 {
                    assert(c[k] == a[k]);
                } else {
                    assert(c[k] == d1[k - 9]);
                }
            }
        }
    } else {
        assert(!(h.take(12) =~= ok_status_line())) by {
            assert(c[9] as u8 == h[9] && c[10] as u8 == h[10] && c[11] as u8 == h[11]);
            assert(c[9] == d1[0] && c[10] == d1[1] && c[11] == d1[2]);
            if h[9] == 50 && h[10] == 48 && h[11] == 48 {
                assert(status as int / 100 == 2 && (status as int / 10) % 10 == 0 && status as int % 10 == 0);
            }
        }
    }
}

} // verus!
