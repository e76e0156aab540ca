//! The sending side: receivers found by the browser, the heads of the
//! requests sent to them, and reading their responses.

use vstd::prelude::*;
use vstd::string::{StrSliceExecFns, StringExecFns};
use crate::config::AirDropReceiverFlags;
use crate::http::{crlf2_at, find_header_end, lines, line_feed, line_at, lines_from, lower, trim, colon_at, spec_parse_usize, parse_usize, trim_bytes, lower_bytes, bytes_eq};
use crate::text::{dec_chars, push_decimal};
use crate::util::{starts_with, has_prefix, spec_uti_type, get_uti_type};
use crate::config::{AirDropConfig, record_view};
use crate::panel::{find_receiver, find_receiver_exec, receivers_removed, remove_receivers, unique_ids};
use crate::property_list::{
    Plist, PlistValue, dict_view, dict_push, dict_lookup, text_value, lookup, text_of, opt_text,
    plist_of_bytes, value_from_bytes, copy_bytes,
};

verus! {

/// An IP address, as the browser resolved it.
#[derive(Debug, Clone, Copy, PartialEq, Eq)]
pub enum IpAddress {
    V4([u8; 4]),
    V6([u16; 8]),
}

/// The IPv6 loopback address `::1`.
pub open spec fn loopback_v6() -> IpAddress {
    IpAddress::V6([0, 0, 0, 0, 0, 0, 0, 1])
}

/// A discovered AirDrop receiver.
#[derive(Debug)]
pub struct Receiver {
    pub id: String,
    pub name: Option<String>,
    pub address: IpAddress,
    pub port: u16,
    pub hostname: String,
    pub flags: u32,
    pub discoverable: bool,
}

impl Clone for Receiver {
    fn clone(&self) -> (r: Self)
        ensures
            r == *self,
    {
        Receiver {
            id: self.id.clone(),
            name: match &self.name {
                Some(n) => Some(n.clone()),
                None => None,
            },
            address: self.address,
            port: self.port,
            hostname: self.hostname.clone(),
            flags: self.flags,
            discoverable: self.discoverable,
        }
    }
}

/// The receivers the browser has resolved, one per id.
pub struct ReceiverTable {
    pub entries: Vec<Receiver>,
}

impl ReceiverTable {
    /// An empty table.
    pub fn new() -> (t: Self)
        ensures
            t.entries@ == Seq::<Receiver>::empty(),
    {
        ReceiverTable { entries: Vec::new() }
    }

    /// A service was resolved as `r`: it joins the table unless a receiver
    /// with its id is already there, which then stays as it is.
    pub fn resolved(&mut self, r: Receiver)
        ensures
            final(self).entries@ == (if find_receiver(old(self).entries@, r.id@) is Some {
                old(self).entries@
            } else {
                old(self).entries@.push(r)
            }),
    {
        match find_receiver_exec(&self.entries, &r.id) {
            Some(_) => {},
            None => self.entries.push(r),
        }
    }

    /// The answer to `/Discover` for receiver `id`: its name, if it gave
    /// one, and whether it did. Returns the updated receiver, if listed.
    pub fn discovered(&mut self, id: &String, name: Option<String>) -> (found: Option<Receiver>)
        ensures
            match find_receiver(old(self).entries@, id@) {
                Some(i) => {
                    &&& final(self).entries@ == old(self).entries@.update(
                        i,
                        Receiver { name: name, discoverable: name is Some, ..old(self).entries@[i] },
                    )
                    &&& found == Some(final(self).entries@[i])
                },
                None => final(self).entries@ == old(self).entries@ && found is None,
            },
    {
        match find_receiver_exec(&self.entries, id) {
            Some(i) => {
                let discoverable = name.is_some();
                let mut r = self.entries[i].clone();
                r.name = name;
                r.discoverable = discoverable;
                let copy = r.clone();
                self.entries.set(i, r);
                Some(copy)
            },
            None => None,
        }
    }

    /// The service of receiver `id` went away.
    pub fn removed(&mut self, id: &String)
        ensures
            final(self).entries@ == receivers_removed(old(self).entries@, id@),
    {
        remove_receivers(&mut self.entries, id);
    }
}

/// The browser's table never lists two receivers with one id: a resolved
/// service joins only under an id not yet listed, and a discover answer
/// changes no id.
pub proof fn lemma_table_ids_unique(rs: Seq<Receiver>, r: Receiver, i: int, name: Option<String>)
    requires
        unique_ids(rs),
    ensures
        unique_ids(
            if find_receiver(rs, r.id@) is Some {
                rs
            } else {
                rs.push(r)
            },
        ),
        0 <= i < rs.len() ==> unique_ids(rs.update(i, Receiver { name: name, discoverable: name is Some, ..rs[i] })),
{
    if find_receiver(rs, r.id@) is None {
        let t = rs.push(r);
        assert forall|a: int, b: int| 0 <= a < t.len() && 0 <= b < t.len() && a != b implies (#[trigger] t[a]).id@ != (
        #[trigger] t[b]).id@ by {
            if a < rs.len() && b < rs.len() {
                assert(t[a] == rs[a] && t[b] == rs[b]);
            } else if a < rs.len() {
                assert(t[a] == rs[a]);
                assert(rs[a].id@ != r.id@);
            } else {
                assert(t[b] == rs[b]);
                assert(rs[b].id@ != r.id@);
            }
        }
    }
    if 0 <= i < rs.len() {
        let t = rs.update(i, Receiver { name: name, discoverable: name is Some, ..rs[i] });
        assert forall|a: int, b: int| 0 <= a < t.len() && 0 <= b < t.len() && a != b implies (#[trigger] t[a]).id@ != (
        #[trigger] t[b]).id@ by {
            assert(t[a].id@ == rs[a].id@);
            assert(t[b].id@ == rs[b].id@);
        }
    }
}

/// What the browser reports.
pub enum BrowserEvent {
    Found(Receiver),
    Removed(String),
}

/// The instance name of a service from its full name (up to the first dot).
pub fn instance_name(fullname: &str) -> (r: String)
    ensures
        r@ == fullname@.take(r@.len() as int),
        !r@.contains('.'),
        r@.len() < fullname@.len() ==> fullname@[r@.len() as int] == '.',
{
    let n = fullname.unicode_len();
    let mut k: usize = 0;
    while k < n && fullname.get_char(k) != '.'
        invariant
            n == fullname@.len(),
            k <= n,
            forall|j: int| 0 <= j < k ==> fullname@[j] != '.',
        decreases n - k,
    {
        k += 1;
    }
    let part = fullname.substring_char(0, k);
    let r = part.to_owned();
    assert(r@ =~= fullname@.take(k as int));
    r
}

/// A `u32` written in decimal, as the receiver's flags property holds it.
pub open spec fn spec_parse_u32(s: Seq<u8>) -> Option<int> {
    match spec_parse_usize(s) {
        Some(v) => if v <= u32::MAX { Some(v) } else { None },
        None => None,
    }
}

/// The receiver flags from the TXT property `flags`, or "supports
/// discover" when it is missing or not a number.
pub fn receiver_flags(prop: Option<&str>) -> (r: u32)
    ensures
        r == (match prop {
            Some(p) => match spec_parse_u32(vstd::utf8::encode_utf8(p@)) {
                Some(v) => v as u32,
                None => AirDropReceiverFlags::SUPPORTS_DISCOVER_MAYBE,
            },
            None => AirDropReceiverFlags::SUPPORTS_DISCOVER_MAYBE,
        }),
{
    match prop {
        Some(p) => {
            let bytes = p.as_bytes_vec();
            match parse_usize(bytes.as_slice()) {
                Some(v) => if v <= 0xffff_ffff {
                    v as u32
                } else {
                    AirDropReceiverFlags::SUPPORTS_DISCOVER_MAYBE
                },
                None => AirDropReceiverFlags::SUPPORTS_DISCOVER_MAYBE,
            }
        },
        None => AirDropReceiverFlags::SUPPORTS_DISCOVER_MAYBE,
    }
}

/// A receiver as the browser first records it on resolving a service: id
/// from the full name, the first address (`::1` when none), port, host name
/// and flags; no name yet, not known to answer.
pub fn receiver_from_service(
    fullname: &str,
    addresses: &[IpAddress],
    port: u16,
    hostname: String,
    flags_prop: Option<&str>,
) -> (r: Receiver)
    ensures
        r.id@ == fullname@.take(r.id@.len() as int),
        !r.id@.contains('.'),
        r.id@.len() < fullname@.len() ==> fullname@[r.id@.len() as int] == '.',
        r.name is None,
        r.address == (if addresses@.len() > 0 { addresses@[0] } else { loopback_v6() }),
        r.port == port,
        r.hostname == hostname,
        r.flags == receiver_flags_of(flags_prop),
        !r.discoverable,
{
    let address = if addresses.len() > 0 { addresses[0] } else { IpAddress::V6([0, 0, 0, 0, 0, 0, 0, 1]) };
    Receiver {
        id: instance_name(fullname),
        name: None,
        address,
        port,
        hostname,
        flags: receiver_flags(flags_prop),
        discoverable: false,
    }
}

/// The flags `receiver_flags` reads from a property.
pub open spec fn receiver_flags_of(prop: Option<&str>) -> u32 {
    match prop {
        Some(p) => match spec_parse_u32(vstd::utf8::encode_utf8(p@)) {
            Some(v) => v as u32,
            None => AirDropReceiverFlags::SUPPORTS_DISCOVER_MAYBE,
        },
        None => AirDropReceiverFlags::SUPPORTS_DISCOVER_MAYBE,
    }
}

// ---------------------------------------------------------------------------
// Responses
// ---------------------------------------------------------------------------

/// The bytes of "content-length:".
pub open spec fn content_length_prefix() -> Seq<u8> {
    seq![99u8, 111u8, 110u8, 116u8, 101u8, 110u8, 116u8, 45u8, 108u8, 101u8, 110u8, 103u8, 116u8, 104u8, 58u8]
}

/// The body length a response head announces: the first line that starts
/// with "content-length:" (in any case) whose text up to the next colon is
/// a number.
pub open spec fn spec_response_length(ls: Seq<Seq<u8>>) -> Option<int>
    decreases ls.len(),
{
    if ls.len() == 0 {
        None
    } else {
        let l = ls[0];
        let v = if starts_with(lower(l), content_length_prefix()) {
            spec_parse_usize(trim(l.subrange(15, colon_at(l, 15))))
        } else {
            None
        };
        if v is Some {
            v
        } else {
            spec_response_length(ls.drop_first())
        }
    }
}

/// Whether `buf` holds a complete response: its head and as many body
/// bytes as the head announces (none when it announces nothing).
pub open spec fn spec_response_complete(buf: Seq<u8>) -> bool {
    if exists|i: int| crlf2_at(buf, i) {
        let i = choose|i: int| crlf2_at(buf, i) && forall|j: int| 0 <= j < i ==> !crlf2_at(buf, j);
        let n = match spec_response_length(lines(buf.take(i + 4))) {
            Some(n) => n,
            None => 0,
        };
        buf.len() >= i + 4 + n
    } else {
        false
    }
}

pub(crate) proof fn lemma_first_blank_unique(buf: Seq<u8>, i: int, k: int)
    requires
        crlf2_at(buf, i),
        forall|j: int| 0 <= j < i ==> !crlf2_at(buf, j),
        crlf2_at(buf, k),
        forall|j: int| 0 <= j < k ==> !crlf2_at(buf, j),
    ensures
        i == k,
{
    if i < k {
        assert(!crlf2_at(buf, i));
    } else if k < i {
        assert(!crlf2_at(buf, k));
    }
}

/// The body length announced by the head `head`, if any.
fn response_length(head: &[u8]) -> (r: Option<usize>)
    requires
        head@.len() < usize::MAX,
    ensures
        match r {
            Some(n) => spec_response_length(lines(head@)) == Some(n as int),
            None => spec_response_length(lines(head@)) is None,
        },
{
    let key: [u8; 15] = [99, 111, 110, 116, 101, 110, 116, 45, 108, 101, 110, 103, 116, 104, 58];
    assert(key@ == content_length_prefix());
    let mut p: usize = 0;
    while p < head.len()
        invariant
            p <= head@.len() + 1,
            head@.len() < usize::MAX,
            key@ == content_length_prefix(),
            spec_response_length(lines(head@)) == spec_response_length(lines_from(head@, p as int)),
        decreases head@.len() + 1 - p,
    {
        let (e, next) = crate::http::line_bounds(head, p);
        let line = vstd::slice::slice_subrange(head, p, e);
        let low = lower_bytes(line);
        if has_prefix(low.as_slice(), key.as_slice()) {
            let mut c: usize = 15;
            proof {
                crate::http::lemma_colon_at(line@, 15);
            }
            while c < line.len() && line[c] != 58
                invariant
                    15 <= c <= line@.len(),
                    colon_at(line@, 15) == colon_at(line@, c as int),
                decreases line@.len() - c,
            {
                c += 1;
            }
            let v = trim_bytes(vstd::slice::slice_subrange(line, 15, c));
            if let Some(n) = parse_usize(v) {
                proof {
                    assert(lines_from(head@, p as int) == seq![line@] + lines_from(head@, next as int));
                }
                return Some(n);
            }
        }
        proof {
            assert(lines_from(head@, p as int) == seq![line@] + lines_from(head@, next as int));
            assert((seq![line@] + lines_from(head@, next as int)).drop_first() =~= lines_from(head@, next as int));
        }
        p = next;
    }
    proof {
        assert(lines_from(head@, p as int) =~= Seq::<Seq<u8>>::empty());
    }
    None
}

/// Whether `buf` holds a complete response.
pub fn response_complete(buf: &[u8]) -> (r: bool)
    requires
        buf@.len() < usize::MAX,
    ensures
        r == spec_response_complete(buf@),
{
    match find_header_end(buf) {
        Some(idx) => {
            proof {
                let i = choose|i: int| crlf2_at(buf@, i) && forall|j: int| 0 <= j < i ==> !crlf2_at(buf@, j);
                assert(crlf2_at(buf@, idx - 4));
                lemma_first_blank_unique(buf@, i, idx - 4);
            }
            let head = vstd::slice::slice_subrange(buf, 0, idx);
            assert(head@ =~= buf@.take(idx as int));
            let n = match response_length(head) {
                Some(n) => n,
                None => 0,
            };
            n <= buf.len() - idx
        },
        None => false,
    }
}

/// The bytes of "HTTP/1.1 200".
pub open spec fn ok_status_line() -> Seq<u8> {
    seq![72u8, 84u8, 84u8, 80u8, 47u8, 49u8, 46u8, 49u8, 32u8, 50u8, 48u8, 48u8]
}

/// Read a response: whether it is a 200, and its body (empty when the head
/// does not end).
pub fn parse_post_response(response: &[u8]) -> (r: (bool, Vec<u8>))
    ensures
        r.0 == starts_with(response@, ok_status_line()),
        r.1@ == (if exists|i: int| crlf2_at(response@, i) {
            response@.skip(
                (choose|i: int| crlf2_at(response@, i) && forall|j: int| 0 <= j < i ==> !crlf2_at(response@, j)) + 4,
            )
        } else {
            Seq::empty()
        }),
{
    let ok: [u8; 12] = [72, 84, 84, 80, 47, 49, 46, 49, 32, 50, 48, 48];
    assert(ok@ == ok_status_line());
    let status = has_prefix(response, ok.as_slice());
    let body = match find_header_end(response) {
        Some(idx) => {
            proof {
                let i = choose|i: int| crlf2_at(response@, i) && forall|j: int| 0 <= j < i ==> !crlf2_at(response@, j);
                lemma_first_blank_unique(response@, i, idx - 4);
            }
            let b = vstd::slice::slice_to_vec(vstd::slice::slice_subrange(response, idx, response.len()));
            assert(b@ =~= response@.skip(idx as int));
            b
        },
        None => Vec::new(),
    };
    (status, body)
}

// ---------------------------------------------------------------------------
// Requests
// ---------------------------------------------------------------------------

/// The request line of a POST to `url`.
pub open spec fn request_line(url: Seq<char>) -> Seq<char> {
    "POST "@ + url + " HTTP/1.1"@
}

/// The `Host` header line.
pub open spec fn host_line(host: Seq<char>, port: u16) -> Seq<char> {
    "Host: "@ + host + ":"@ + dec_chars(port as nat)
}

/// The `Content-Length` header line.
pub open spec fn length_line(n: nat) -> Seq<char> {
    "Content-Length: "@ + dec_chars(n)
}

/// A header line `name: value`.
pub open spec fn header_line(name: Seq<char>, value: Seq<char>) -> Seq<char> {
    name + ": "@ + value
}

/// The lines of the head of a POST of `body_len` bytes to `url` on
/// `host`:`port`: the request line, AirDrop's fixed headers, and then one
/// line per pair of `extra`.
pub open spec fn post_head_lines(url: Seq<char>, host: Seq<char>, port: u16, body_len: nat, extra: Seq<(Seq<char>, Seq<char>)>) -> Seq<Seq<char>> {
    seq![
        request_line(url),
        host_line(host, port),
        "Content-Type: application/octet-stream"@,
        "Connection: keep-alive"@,
        "Accept: */*"@,
        "User-Agent: AirDrop/1.0"@,
        "Accept-Language: en-us"@,
        "Accept-Encoding: br, gzip, deflate"@,
        length_line(body_len),
    ] + extra.map_values(|e: (Seq<char>, Seq<char>)| header_line(e.0, e.1))
}

/// Lines of text, each ended by CR LF.
pub open spec fn head_text(ls: Seq<Seq<char>>) -> Seq<char>
    decreases ls.len(),
{
    if ls.len() == 0 {
        Seq::empty()
    } else {
        head_text(ls.drop_last()) + ls.last() + "\r\n"@
    }
}

/// The head of a POST: its lines, then an empty line.
pub open spec fn spec_post_head(url: Seq<char>, host: Seq<char>, port: u16, body_len: nat, extra: Seq<(Seq<char>, Seq<char>)>) -> Seq<char> {
    head_text(post_head_lines(url, host, port, body_len, extra)) + "\r\n"@
}

/// The pairs of `extra` as text.
pub open spec fn extra_view(extra: Seq<(&str, String)>) -> Seq<(Seq<char>, Seq<char>)> {
    extra.map_values(|p: (&str, String)| (p.0@, p.1@))
}

proof fn lemma_head_text_push(ls: Seq<Seq<char>>, l: Seq<char>)
    ensures
        head_text(ls.push(l)) == head_text(ls) + l + "\r\n"@,
{
    assert(ls.push(l).drop_last() =~= ls);
}

/// Build the head of a POST of `body_len` bytes to `url` on `host`:`port`.
pub fn post_request_head(url: &str, host: &str, port: u16, body_len: usize, extra: &[(&str, String)]) -> (r: String)
    ensures
        r@ == spec_post_head(url@, host@, port, body_len as nat, extra_view(extra@)),
{
    let ghost fixed = seq![
        request_line(url@),
        host_line(host@, port),
        "Content-Type: application/octet-stream"@,
        "Connection: keep-alive"@,
        "Accept: */*"@,
        "User-Agent: AirDrop/1.0"@,
        "Accept-Language: en-us"@,
        "Accept-Encoding: br, gzip, deflate"@,
        length_line(body_len as nat),
    ];
    let ghost mut done: Seq<Seq<char>> = Seq::empty();
    let mut r = String::new();
    r.append("POST ");
    r.append(url);
    r.append(" HTTP/1.1");
    r.append("\r\n");
    proof {
        lemma_head_text_push(done, request_line(url@));
        done = done.push(request_line(url@));
        assert(r@ =~= head_text(done));
    }
    r.append("Host: ");
    r.append(host);
    r.append(":");
    push_decimal(&mut r, port as u64);
    r.append("\r\n");
    proof {
        lemma_head_text_push(done, host_line(host@, port));
        done = done.push(host_line(host@, port));
        assert(r@ =~= head_text(done));
    }
    r.append("Content-Type: application/octet-stream");
    r.append("\r\n");
    proof {
        lemma_head_text_push(done, "Content-Type: application/octet-stream"@);
        done = done.push("Content-Type: application/octet-stream"@);
        assert(r@ =~= head_text(done));
    }
    r.append("Connection: keep-alive");
    r.append("\r\n");
    proof {
        lemma_head_text_push(done, "Connection: keep-alive"@);
        done = done.push("Connection: keep-alive"@);
        assert(r@ =~= head_text(done));
    }
    r.append("Accept: */*");
    r.append("\r\n");
    proof {
        lemma_head_text_push(done, "Accept: */*"@);
        done = done.push("Accept: */*"@);
        assert(r@ =~= head_text(done));
    }
    r.append("User-Agent: AirDrop/1.0");
    r.append("\r\n");
    proof {
        lemma_head_text_push(done, "User-Agent: AirDrop/1.0"@);
        done = done.push("User-Agent: AirDrop/1.0"@);
        assert(r@ =~= head_text(done));
    }
    r.append("Accept-Language: en-us");
    r.append("\r\n");
    proof {
        lemma_head_text_push(done, "Accept-Language: en-us"@);
        done = done.push("Accept-Language: en-us"@);
        assert(r@ =~= head_text(done));
    }
    r.append("Accept-Encoding: br, gzip, deflate");
    r.append("\r\n");
    proof {
        lemma_head_text_push(done, "Accept-Encoding: br, gzip, deflate"@);
        done = done.push("Accept-Encoding: br, gzip, deflate"@);
        assert(r@ =~= head_text(done));
    }
    r.append("Content-Length: ");
    push_decimal(&mut r, body_len as u64);
    r.append("\r\n");
    proof {
        lemma_head_text_push(done, length_line(body_len as nat));
        done = done.push(length_line(body_len as nat));
        assert(r@ =~= head_text(done));
        assert(done =~= fixed);
    }
    let ghost pairs = extra_view(extra@);
    let mut i: usize = 0;
    while i < extra.len()
        invariant
            i <= extra@.len(),
            pairs == extra_view(extra@),
            r@ == head_text(fixed + pairs.take(i as int).map_values(|e: (Seq<char>, Seq<char>)| header_line(e.0, e.1))),
        decreases extra@.len() - i,
    {
        let (k, v) = &extra[i];
        r.append(k);
        r.append(": ");
        r.append(v.as_str());
        r.append("\r\n");
        proof {
            let f = |e: (Seq<char>, Seq<char>)| header_line(e.0, e.1);
            let before = fixed + pairs.take(i as int).map_values(f);
            let after = fixed + pairs.take(i + 1).map_values(f);
            assert(after =~= before.push(header_line(k@, v@)));
            lemma_head_text_push(before, header_line(k@, v@));
            assert(r@ =~= head_text(after));
        }
        i += 1;
    }
    r.append("\r\n");
    proof {
        assert(pairs.take(extra@.len() as int) =~= pairs);
        assert(fixed + pairs.map_values(|e: (Seq<char>, Seq<char>)| header_line(e.0, e.1))
            =~= post_head_lines(url@, host@, port, body_len as nat, extra_view(extra@)));
    }
    r
}

// ---------------------------------------------------------------------------
// What the client reads of the server's responses
// ---------------------------------------------------------------------------

pub(crate) proof fn lemma_dec_chars_digits(n: nat)
    ensures
        dec_chars(n).len() >= 1,
        forall|k: int| 0 <= k < dec_chars(n).len() ==> '0' <= #[trigger] dec_chars(n)[k] <= '9',
    decreases n,
{
    reveal_with_fuel(crate::text::hex_char, 1);
    if n >= 10 {
        lemma_dec_chars_digits(n / 10);
    }
}


// ---------------------------------------------------------------------------
// Property-list requests and what the answers carry
// ---------------------------------------------------------------------------

/// The body of a `/Discover`: the sender's record data, when it has one.
pub open spec fn spec_discover_request(record: Option<Seq<u8>>) -> Plist {
    Plist::Dict(
        match record {
            Some(r) => seq![("SenderRecordData"@, Plist::Data(r))],
            None => Seq::empty(),
        },
    )
}

/// The body of a `/Discover` for `config`.
pub fn discover_request(config: &AirDropConfig) -> (r: PlistValue)
    ensures
        r@ == spec_discover_request(record_view(config.record_data)),
{
    let mut d: Vec<(String, PlistValue)> = Vec::new();
    assert(dict_view(d@) =~= Seq::empty());
    match &config.record_data {
        Some(rec) => {
            dict_push(&mut d, "SenderRecordData", PlistValue::Data(copy_bytes(rec)));
            assert(dict_view(d@) =~= seq![("SenderRecordData"@, Plist::Data(rec@))]);
        },
        None => {},
    }
    PlistValue::Dict(d)
}

/// The receiver's computer name a `/Discover` answer gives.
pub fn discover_answer_name(answer: &PlistValue) -> (r: Option<String>)
    ensures
        opt_text(r) == text_of(lookup(answer@, "ReceiverComputerName"@)),
{
    text_value(dict_lookup(answer, "ReceiverComputerName"))
}

/// The receiver's computer name in the `/Discover` answer `body`; `None`
/// when it holds no plist or no such name.
pub fn receiver_name_from_answer(body: &[u8]) -> (r: Option<String>)
    ensures
        opt_text(r) == match plist_of_bytes(body@) {
            Some(p) => text_of(lookup(p, "ReceiverComputerName"@)),
            None => None,
        },
{
    match value_from_bytes(body) {
        Ok(v) => discover_answer_name(&v),
        Err(_) => None,
    }
}

/// The first 128 bytes of a file's contents, or all of them when fewer.
pub open spec fn file_header(contents: Seq<u8>) -> Seq<u8> {
    if contents.len() >= 128 {
        contents.take(128)
    } else {
        contents
    }
}

/// The type a file is announced with: a folder, or what its first bytes
/// show.
pub open spec fn spec_file_type(is_dir: bool, contents: Seq<u8>) -> Seq<char> {
    if is_dir {
        "public.folder"@
    } else {
        spec_uti_type(file_header(contents))
    }
}

/// The entry that describes the one file an ask offers.
pub open spec fn spec_file_entry(file_name: Seq<char>, is_dir: bool, contents: Seq<u8>) -> Plist {
    Plist::Dict(seq![
        ("FileName"@, Plist::Text(file_name)),
        ("FileType"@, Plist::Text(spec_file_type(is_dir, contents))),
        ("FileBomPath"@, Plist::Text("./"@ + file_name)),
        ("FileIsDirectory"@, Plist::Flag(is_dir)),
        ("ConvertMediaFormats"@, Plist::Integer(0)),
    ])
}

/// The body of an `/Ask` offering one file: the sender's names and id,
/// its record data when it has one, the file's entry, and the file's icon
/// when it is no folder and has one.
pub open spec fn spec_ask_request(
    name: Seq<char>,
    model: Seq<char>,
    service_id: Seq<char>,
    record: Option<Seq<u8>>,
    file_name: Seq<char>,
    is_dir: bool,
    contents: Seq<u8>,
    icon: Option<Seq<u8>>,
) -> Plist {
    let base = seq![
        ("SenderComputerName"@, Plist::Text(name)),
        ("BundleID"@, Plist::Text("com.apple.finder"@)),
        ("SenderModelName"@, Plist::Text(model)),
        ("SenderID"@, Plist::Text(service_id)),
        ("ConvertMediaFormats"@, Plist::Flag(false)),
    ];
    let with_record = match record {
        Some(r) => base.push(("SenderRecordData"@, Plist::Data(r))),
        None => base,
    };
    let with_files = with_record.push(("Files"@, Plist::List(seq![spec_file_entry(file_name, is_dir, contents)])));
    Plist::Dict(
        match icon {
            Some(i) => if is_dir {
                with_files
            } else {
                with_files.push(("FileIcon"@, Plist::Data(i)))
            },
            None => with_files,
        },
    )
}

/// The type a file is announced with.
pub fn file_type(is_dir: bool, contents: &[u8]) -> (r: &'static str)
    ensures
        r@ == spec_file_type(is_dir, contents@),
{
    if is_dir {
        proof {
            reveal_strlit("public.folder");
        }
        "public.folder"
    } else {
        let header = if contents.len() >= 128 {
            vstd::slice::slice_subrange(contents, 0, 128)
        } else {
            contents
        };
        assert(header@ =~= file_header(contents@));
        get_uti_type(header)
    }
}

/// The body of an `/Ask` for `config` offering the file `file_name`, a
/// folder or a file with `contents`, with `icon` when one was made.
pub fn ask_request(
    config: &AirDropConfig,
    file_name: &str,
    is_dir: bool,
    contents: &[u8],
    icon: Option<Vec<u8>>,
) -> (r: PlistValue)
    ensures
        r@ == spec_ask_request(
            config.computer_name@,
            config.computer_model@,
            config.service_id@,
            record_view(config.record_data),
            file_name@,
            is_dir,
            contents@,
            record_view(icon),
        ),
{
    let mut entry: Vec<(String, PlistValue)> = Vec::new();
    assert(dict_view(entry@) =~= Seq::empty());
    dict_push(&mut entry, "FileName", PlistValue::Text(file_name.to_string()));
    dict_push(&mut entry, "FileType", PlistValue::Text(file_type(is_dir, contents).to_string()));
    let mut bom = String::from_str("./");
    bom.append(file_name);
    dict_push(&mut entry, "FileBomPath", PlistValue::Text(bom));
    dict_push(&mut entry, "FileIsDirectory", PlistValue::Flag(is_dir));
    dict_push(&mut entry, "ConvertMediaFormats", PlistValue::Integer(0));
    let file = PlistValue::Dict(entry);
    assert(file@ == spec_file_entry(file_name@, is_dir, contents@)) by {
        assert(dict_view(entry@) =~= seq![
            ("FileName"@, Plist::Text(file_name@)),
            ("FileType"@, Plist::Text(spec_file_type(is_dir, contents@))),
            ("FileBomPath"@, Plist::Text("./"@ + file_name@)),
            ("FileIsDirectory"@, Plist::Flag(is_dir)),
            ("ConvertMediaFormats"@, Plist::Integer(0)),
        ]);
    }
    let ghost file_view = file@;
    let mut d: Vec<(String, PlistValue)> = Vec::new();
    assert(dict_view(d@) =~= Seq::empty());
    dict_push(&mut d, "SenderComputerName", PlistValue::Text(config.computer_name.clone()));
    dict_push(&mut d, "BundleID", PlistValue::Text(String::from_str("com.apple.finder")));
    dict_push(&mut d, "SenderModelName", PlistValue::Text(config.computer_model.clone()));
    dict_push(&mut d, "SenderID", PlistValue::Text(config.service_id.clone()));
    dict_push(&mut d, "ConvertMediaFormats", PlistValue::Flag(false));
    let ghost base = seq![
        ("SenderComputerName"@, Plist::Text(config.computer_name@)),
        ("BundleID"@, Plist::Text("com.apple.finder"@)),
        ("SenderModelName"@, Plist::Text(config.computer_model@)),
        ("SenderID"@, Plist::Text(config.service_id@)),
        ("ConvertMediaFormats"@, Plist::Flag(false)),
    ];
    assert(dict_view(d@) =~= base);
    match &config.record_data {
        Some(rec) => {
            dict_push(&mut d, "SenderRecordData", PlistValue::Data(copy_bytes(rec)));
        },
        None => {},
    }
    let mut files: Vec<PlistValue> = Vec::new();
    files.push(file);
    proof {
        crate::property_list::lemma_list_view(files@);
        assert(crate::property_list::list_view(files@) =~= seq![file_view]);
    }
    dict_push(&mut d, "Files", PlistValue::List(files));
    if !is_dir {
        match icon {
            Some(i) => dict_push(&mut d, "FileIcon", PlistValue::Data(i)),
            None => {},
        }
    }
    PlistValue::Dict(d)
}

} // verus!
