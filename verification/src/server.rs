//! The receiving side: what a request asks for, the events the user
//! interface is told about, and the heads of the responses.

use vstd::prelude::*;
use vstd::string::StringExecFns;
use crate::http::{RequestHead, bytes_eq};
use crate::text::{dec_chars, push_decimal};
use crate::util::{starts_with, has_prefix};
use crate::config::{AirDropConfig, record_view};
use crate::property_list::{
    Plist, PlistValue, dict_view, dict_push, dict_lookup, first_item, text_value, lookup, first_of,
    text_of, opt_text, plist_of_bytes, value_from_bytes, copy_bytes,
};

verus! {

/// An event of receive mode, for the user interface.
#[derive(Clone, Debug)]
pub enum ServerEvent {
    Start,
    Ask { sender_name: String, file_name: String, file_size: u64 },
    Accepted,
    ReceiveProgress { file_name: String, bytes: u64, total_bytes: u64 },
    Received { file_name: String },
    Error(String),
}

/// Whether the receive server runs.
pub struct ServerStatus {
    pub running: bool,
}

impl Default for ServerStatus {
    fn default() -> (s: Self)
        ensures
            !s.running,
    {
        ServerStatus { running: false }
    }
}

/// What a request asks for.
#[derive(Debug, Clone, Copy, PartialEq, Eq, Structural)]
pub enum Route {
    /// `POST /Discover`: who is there.
    Discover,
    /// `POST /Ask`: may a file be sent.
    Ask,
    /// `POST /Upload`: the file archive.
    Upload,
    /// Any other `POST`: refused with 400.
    BadRequest,
    /// Any other method: answered with a bare 200.
    Other,
}

/// The bytes of "POST".
pub open spec fn post_bytes() -> Seq<u8> {
    seq![80u8, 79u8, 83u8, 84u8]
}

/// The bytes of "/Discover".
pub open spec fn discover_path() -> Seq<u8> {
    seq![47u8, 68u8, 105u8, 115u8, 99u8, 111u8, 118u8, 101u8, 114u8]
}

/// The bytes of "/Ask".
pub open spec fn ask_path() -> Seq<u8> {
    seq![47u8, 65u8, 115u8, 107u8]
}

/// The bytes of "/Upload".
pub open spec fn upload_path() -> Seq<u8> {
    seq![47u8, 85u8, 112u8, 108u8, 111u8, 97u8, 100u8]
}

/// Where a request with (upper-cased) `method` and `path` goes.
pub open spec fn spec_route(method: Seq<u8>, path: Seq<u8>) -> Route {
    if method != post_bytes() {
        Route::Other
    } else if path == discover_path() {
        Route::Discover
    } else if path == ask_path() {
        Route::Ask
    } else if path == upload_path() {
        Route::Upload
    } else {
        Route::BadRequest
    }
}

/// Where the request with head `head` goes.
pub fn route_request(head: &RequestHead) -> (r: Route)
    ensures
        r == spec_route(head.method@, head.path@),
{
    let post: [u8; 4] = [80, 79, 83, 84];
    let discover: [u8; 9] = [47, 68, 105, 115, 99, 111, 118, 101, 114];
    let ask: [u8; 4] = [47, 65, 115, 107];
    let upload: [u8; 7] = [47, 85, 112, 108, 111, 97, 100];
    assert(post@ == post_bytes());
    assert(discover@ == discover_path());
    assert(ask@ == ask_path());
    assert(upload@ == upload_path());
    if !bytes_eq(head.method.as_slice(), post.as_slice()) {
        Route::Other
    } else if bytes_eq(head.path.as_slice(), discover.as_slice()) {
        Route::Discover
    } else if bytes_eq(head.path.as_slice(), ask.as_slice()) {
        Route::Ask
    } else if bytes_eq(head.path.as_slice(), upload.as_slice()) {
        Route::Upload
    } else {
        Route::BadRequest
    }
}

/// The reason phrase of a status code this server sends.
pub open spec fn spec_reason(status: u16) -> Seq<char> {
    if status == 200 {
        "OK"@
    } else if status == 400 {
        "Bad Request"@
    } else if status == 406 {
        "Not Acceptable"@
    } else {
        "Unknown"@
    }
}

/// The reason phrase of `status`.
pub fn reason_phrase(status: u16) -> (r: &'static str)
    ensures
        r@ == spec_reason(status),
{
    proof {
        reveal_strlit("OK");
        reveal_strlit("Bad Request");
        reveal_strlit("Not Acceptable");
        reveal_strlit("Unknown");
    }
    match status {
        200 => "OK",
        400 => "Bad Request",
        406 => "Not Acceptable",
        _ => "Unknown",
    }
}

/// The head of a response with `status` and a body of `body_len` bytes;
/// the connection closes after it.
pub open spec fn spec_response_head(status: u16, body_len: nat) -> Seq<char> {
    "HTTP/1.1 "@ + dec_chars(status as nat) + " "@ + spec_reason(status) + "\r\nContent-Length: "@
        + dec_chars(body_len) + "\r\nConnection: close\r\n\r\n"@
}

/// Build the head of a response with `status` and a body of `body_len`
/// bytes.
pub fn response_head(status: u16, body_len: usize) -> (r: String)
    ensures
        r@ == spec_response_head(status, body_len as nat),
{
    let mut r = String::from_str("HTTP/1.1 ");
    push_decimal(&mut r, status as u64);
    r.append(" ");
    r.append(reason_phrase(status));
    r.append("\r\nContent-Length: ");
    push_decimal(&mut r, body_len as u64);
    r.append("\r\nConnection: close\r\n\r\n");
    proof {
        reveal_strlit("HTTP/1.1 ");
        reveal_strlit(" ");
        reveal_strlit("\r\nContent-Length: ");
        reveal_strlit("\r\nConnection: close\r\n\r\n");
        assert(r@ =~= spec_response_head(status, body_len as nat));
    }
    r
}

/// The event for an ask: the sender's computer name and the first file's
/// name as the request gave them, "Unknown" and "file" where it did not;
/// the size is not announced.
pub fn ask_event(sender_name: Option<String>, file_name: Option<String>) -> (e: ServerEvent)
    ensures
        e matches ServerEvent::Ask { sender_name: s, file_name: f, file_size: z } && z == 0
            && s@ == (match sender_name {
            Some(n) => n@,
            None => "Unknown"@,
        }) && f@ == (match file_name {
            Some(n) => n@,
            None => "file"@,
        }),
{
    proof {
        reveal_strlit("Unknown");
        reveal_strlit("file");
    }
    let s = match sender_name {
        Some(n) => n,
        None => String::from_str("Unknown"),
    };
    let f = match file_name {
        Some(n) => n,
        None => String::from_str("file"),
    };
    ServerEvent::Ask { sender_name: s, file_name: f, file_size: 0 }
}

/// Whether an upload is gzip-compressed (it starts with the gzip magic).
pub fn upload_is_gzip(data: &[u8]) -> (r: bool)
    ensures
        r == starts_with(data@, seq![0x1Fu8, 0x8Bu8]),
{
    let magic: [u8; 2] = [0x1F, 0x8B];
    assert(magic@ == seq![0x1Fu8, 0x8Bu8]);
    has_prefix(data, magic.as_slice())
}

// ---------------------------------------------------------------------------
// Property-list answers and what an ask carries
// ---------------------------------------------------------------------------

/// The answer to `/Discover`: the receiver's computer and model names, its
/// media capabilities, and its record data when it has one.
pub open spec fn spec_discover_answer(name: Seq<char>, model: Seq<char>, record: Option<Seq<u8>>) -> Plist {
    let base = seq![
        ("ReceiverComputerName"@, Plist::Text(name)),
        ("ReceiverModelName"@, Plist::Text(model)),
        ("ReceiverMediaCapabilities"@, Plist::Text("{\"Version\":1}"@)),
    ];
    Plist::Dict(
        match record {
            Some(r) => base.push(("ReceiverRecordData"@, Plist::Data(r))),
            None => base,
        },
    )
}

/// The answer to `/Discover` for `config`.
pub fn discover_answer(config: &AirDropConfig) -> (r: PlistValue)
    ensures
        r@ == spec_discover_answer(config.computer_name@, config.computer_model@, record_view(config.record_data)),
{
    let mut d: Vec<(String, PlistValue)> = Vec::new();
    assert(dict_view(d@) =~= Seq::empty());
    dict_push(&mut d, "ReceiverComputerName", PlistValue::Text(config.computer_name.clone()));
    dict_push(&mut d, "ReceiverModelName", PlistValue::Text(config.computer_model.clone()));
    dict_push(&mut d, "ReceiverMediaCapabilities", PlistValue::Text(String::from_str("{\"Version\":1}")));
    let ghost base = seq![
        ("ReceiverComputerName"@, Plist::Text(config.computer_name@)),
        ("ReceiverModelName"@, Plist::Text(config.computer_model@)),
        ("ReceiverMediaCapabilities"@, Plist::Text("{\"Version\":1}"@)),
    ];
    assert(dict_view(d@) =~= base);
    match &config.record_data {
        Some(rec) => {
            dict_push(&mut d, "ReceiverRecordData", PlistValue::Data(copy_bytes(rec)));
            assert(dict_view(d@) =~= base.push(("ReceiverRecordData"@, Plist::Data(rec@))));
        },
        None => {},
    }
    PlistValue::Dict(d)
}

/// The answer to `/Ask`: the receiver's model and computer names.
pub open spec fn spec_ask_answer(name: Seq<char>, model: Seq<char>) -> Plist {
    Plist::Dict(seq![("ReceiverModelName"@, Plist::Text(model)), ("ReceiverComputerName"@, Plist::Text(name))])
}

/// The answer to `/Ask` for `config`.
pub fn ask_answer(config: &AirDropConfig) -> (r: PlistValue)
    ensures
        r@ == spec_ask_answer(config.computer_name@, config.computer_model@),
{
    let mut d: Vec<(String, PlistValue)> = Vec::new();
    assert(dict_view(d@) =~= Seq::empty());
    dict_push(&mut d, "ReceiverModelName", PlistValue::Text(config.computer_model.clone()));
    dict_push(&mut d, "ReceiverComputerName", PlistValue::Text(config.computer_name.clone()));
    assert(dict_view(d@) =~= seq![
        ("ReceiverModelName"@, Plist::Text(config.computer_model@)),
        ("ReceiverComputerName"@, Plist::Text(config.computer_name@)),
    ]);
    PlistValue::Dict(d)
}

/// The sender's computer name an ask request gives.
pub open spec fn spec_ask_sender(p: Plist) -> Option<Seq<char>> {
    text_of(lookup(p, "SenderComputerName"@))
}

/// The name of the first file an ask request lists.
pub open spec fn spec_ask_file(p: Plist) -> Option<Seq<char>> {
    match first_of(lookup(p, "Files"@)) {
        Some(f) => text_of(lookup(f, "FileName"@)),
        None => None,
    }
}

/// The sender's name and the first file's name of an ask request.
pub fn ask_request_fields(request: &PlistValue) -> (r: (Option<String>, Option<String>))
    ensures
        opt_text(r.0) == spec_ask_sender(request@),
        opt_text(r.1) == spec_ask_file(request@),
{
    let sender = text_value(dict_lookup(request, "SenderComputerName"));
    let file = match first_item(dict_lookup(request, "Files")) {
        Some(f) => text_value(dict_lookup(f, "FileName")),
        None => None,
    };
    (sender, file)
}

/// The event for an ask whose body is `body`: what `ask_event` makes of the
/// fields of the plist in it, or of none where it holds no plist.
pub fn ask_event_from_body(body: &[u8]) -> (e: ServerEvent)
    ensures
        e matches ServerEvent::Ask { sender_name: s, file_name: f, file_size: z } && z == 0
            && s@ == (match plist_of_bytes(body@) {
            Some(p) => match spec_ask_sender(p) {
                Some(n) => n,
                None => "Unknown"@,
            },
            None => "Unknown"@,
        }) && f@ == (match plist_of_bytes(body@) {
            Some(p) => match spec_ask_file(p) {
                Some(n) => n,
                None => "file"@,
            },
            None => "file"@,
        }),
{
    let (sender, file) = match value_from_bytes(body) {
        Ok(v) => ask_request_fields(&v),
        Err(_) => (None, None),
    };
    ask_event(sender, file)
}

} // verus!
