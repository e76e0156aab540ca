use cosmicdrop::client::{
    instance_name, parse_post_response, post_request_head, receiver_flags, receiver_from_service,
    response_complete, IpAddress, ReceiverTable,
};
use cosmicdrop::config::{
    detect_airdrop_interface, get_ip_for_interface, join_path, service_id_from, AirDropConfig,
    AirDropReceiverFlags, InterfaceAddr,
};
use cosmicdrop::http::{find_header_end, parse_request_head, parse_usize};
use cosmicdrop::panel::{
    ask_outcome_line, upload_outcome_line, Page, PanelAction, PanelMessage, PanelState,
};
use cosmicdrop::server::{
    ask_event, reason_phrase, response_head, route_request, upload_is_gzip, Route, ServerEvent,
};
use cosmicdrop::util::get_uti_type;

fn iface(name: &str, ip: IpAddress) -> InterfaceAddr {
    InterfaceAddr { name: name.to_string(), ip }
}

#[test]
fn header_end_and_request_head() {
    let req = b"post /Ask HTTP/1.1\r\nHost: x\r\ncontent-LENGTH:  12 \r\nContent-Length: 7\r\n\r\nbody";
    let end = find_header_end(req).unwrap();
    assert_eq!(&req[end..], b"body");
    let head = parse_request_head(&req[..end - 4]);
    assert_eq!(head.method, b"POST".to_vec());
    assert_eq!(head.path, b"/Ask".to_vec());
    assert_eq!(head.content_length, 7);
    assert_eq!(route_request(&head), Route::Ask);
    let head = parse_request_head(b"GET / HTTP/1.1\r\nContent-Length: x");
    assert_eq!(head.content_length, 0);
    assert_eq!(route_request(&head), Route::Other);
    let head = parse_request_head(b"POST /Other HTTP/1.1");
    assert_eq!(route_request(&head), Route::BadRequest);
    let head = parse_request_head(b"POST /Discover HTTP/1.1");
    assert_eq!(route_request(&head), Route::Discover);
    let head = parse_request_head(b"POST /Upload HTTP/1.1");
    assert_eq!(route_request(&head), Route::Upload);
    assert!(find_header_end(b"HTTP/1.1 200 OK\r\n").is_none());
}

#[test]
fn parse_numbers() {
    assert_eq!(parse_usize(b"+42"), Some(42));
    assert_eq!(parse_usize(b"0"), Some(0));
    assert_eq!(parse_usize(b""), None);
    assert_eq!(parse_usize(b"+"), None);
    assert_eq!(parse_usize(b"-1"), None);
    assert_eq!(parse_usize(b"12a"), None);
    assert_eq!(parse_usize(b"99999999999999999999999"), None);
}

#[test]
fn response_heads() {
    assert_eq!(
        response_head(200, 12),
        "HTTP/1.1 200 OK\r\nContent-Length: 12\r\nConnection: close\r\n\r\n"
    );
    assert_eq!(reason_phrase(400), "Bad Request");
    assert_eq!(reason_phrase(406), "Not Acceptable");
    assert_eq!(reason_phrase(500), "Unknown");
}

#[test]
fn response_reading() {
    let resp = b"HTTP/1.1 200 OK\r\nContent-Length: 3\r\n\r\nabc";
    assert!(response_complete(resp));
    assert!(!response_complete(&resp[..resp.len() - 1]));
    assert!(response_complete(b"HTTP/1.1 200 OK\r\n\r\n"));
    assert!(!response_complete(b"HTTP/1.1 200 OK\r\n"));
    let (ok, body) = parse_post_response(resp);
    assert!(ok);
    assert_eq!(body, b"abc".to_vec());
    let (ok, body) = parse_post_response(b"HTTP/1.1 406 Not Acceptable\r\n");
    assert!(!ok);
    assert!(body.is_empty());
}

#[test]
fn response_written_then_read() {
    let body = b"<plist/>".to_vec();
    let mut wire = response_head(200, body.len()).into_bytes();
    wire.extend_from_slice(&body);
    assert!(response_complete(&wire));
    let (ok, got) = parse_post_response(&wire);
    assert!(ok);
    assert_eq!(got, body);
    let refused = response_head(406, 0).into_bytes();
    let (ok, got) = parse_post_response(&refused);
    assert!(!ok);
    assert!(got.is_empty());
}

#[test]
fn request_heads() {
    let extra = [("Content-Type", "application/x-cpio".to_string())];
    let h = post_request_head("/Upload", "fe80::1", 8771, 10, &extra);
    assert_eq!(
        h,
        "POST /Upload HTTP/1.1\r\nHost: fe80::1:8771\r\nContent-Type: application/octet-stream\r\nConnection: keep-alive\r\nAccept: */*\r\nUser-Agent: AirDrop/1.0\r\nAccept-Language: en-us\r\nAccept-Encoding: br, gzip, deflate\r\nContent-Length: 10\r\nContent-Type: application/x-cpio\r\n\r\n"
    );
}

#[test]
fn request_written_then_read() {
    let extra = [("Content-Type", "application/x-cpio".to_string())];
    let mut wire = post_request_head("/Upload", "fe80::1", 8771, 5, &extra).into_bytes();
    wire.extend_from_slice(b"hello");
    let end = find_header_end(&wire).unwrap();
    assert_eq!(&wire[end..], b"hello");
    let head = parse_request_head(&wire[..end - 4]);
    assert_eq!(head.method, b"POST".to_vec());
    assert_eq!(head.path, b"/Upload".to_vec());
    assert_eq!(head.content_length, 5);
    assert_eq!(route_request(&head), Route::Upload);
}

#[test]
fn receivers_from_services() {
    assert_eq!(instance_name("abc123._airdrop._tcp.local."), "abc123");
    assert_eq!(instance_name("plain"), "plain");
    assert_eq!(receiver_flags(Some("1019")), 1019);
    assert_eq!(receiver_flags(Some("x")), AirDropReceiverFlags::SUPPORTS_DISCOVER_MAYBE);
    assert_eq!(receiver_flags(None), 0x80);
    let r = receiver_from_service("id1._airdrop._tcp.local.", &[], 8770, "h.local.".to_string(), None);
    assert_eq!(r.id, "id1");
    assert_eq!(r.address, IpAddress::V6([0, 0, 0, 0, 0, 0, 0, 1]));
    assert!(!r.discoverable);
    assert!(r.name.is_none());
}

#[test]
fn config_defaults() {
    assert_eq!(join_path("/home/a", ".opendrop"), "/home/a/.opendrop");
    assert_eq!(join_path("/", "x"), "/x");
    assert_eq!(join_path("", "x"), "x");
    assert_eq!(service_id_from(0xffff_0123_4567_89ab), "0123456789ab");
    assert_eq!(service_id_from(5), "000000000005");
    let c = AirDropConfig::new(
        Some("host".to_string()),
        None,
        None,
        None,
        None,
        None,
        None,
        None,
        false,
        None,
        Some("/home/u".to_string()),
        &[],
    )
    .unwrap();
    assert_eq!(c.computer_name, "host");
    assert_eq!(c.computer_model, "CosmicDrop");
    assert_eq!(c.port, 8771);
    assert_eq!(c.airdrop_dir, "/home/u/.opendrop");
    assert_eq!(c.debug_dir, "/home/u/.opendrop/debug");
    assert_eq!(c.cert_file, "/home/u/.opendrop/keys/certificate.pem");
    assert_eq!(c.interface, "awdl0");
    assert_eq!(c.flags, 0x88);
    assert_eq!(c.service_id.len(), 12);
    assert!(c.service_id.chars().all(|ch| ch.is_ascii_hexdigit() && !ch.is_ascii_uppercase()));
}

#[test]
fn interface_choice() {
    let ll = IpAddress::V6([0xfe80, 0, 0, 0, 1, 2, 3, 4]);
    let global = IpAddress::V6([0x2001, 0xdb8, 0, 0, 0, 0, 0, 1]);
    let v4 = IpAddress::V4([192, 168, 1, 2]);
    let list = vec![
        iface("lo", IpAddress::V4([127, 0, 0, 1])),
        iface("eth0", v4),
        iface("wlp2s0", global),
        iface("wlp2s0", ll),
    ];
    assert_eq!(detect_airdrop_interface(&list), "wlp2s0");
    assert_eq!(get_ip_for_interface(&list, "wlp2s0", true), Some(ll));
    assert_eq!(get_ip_for_interface(&list, "eth0", false), Some(v4));
    assert_eq!(get_ip_for_interface(&list, "eth0", true), None);
    let only_lo = vec![iface("lo", IpAddress::V4([127, 0, 0, 1])), iface("eth1", IpAddress::V6([0; 8]))];
    assert_eq!(detect_airdrop_interface(&only_lo), "awdl0");
    let awdl = vec![iface("eth0", v4), iface("awdl0", ll)];
    assert_eq!(detect_airdrop_interface(&awdl), "awdl0");
    assert_eq!(detect_airdrop_interface(&[]), "awdl0");
    assert_eq!(detect_airdrop_interface(&[iface("eth0", v4)]), "eth0");
}

#[test]
fn uti_types() {
    assert_eq!(get_uti_type(&[0xFF, 0xD8, 0xFF, 0xE0]), "public.jpeg");
    assert_eq!(get_uti_type(&[0x89, 0x50, 0x4E, 0x47, 0x0D, 0x0A, 0x1A, 0x0A]), "public.png");
    assert_eq!(get_uti_type(b"GIF89a"), "com.compuserve.gif");
    assert_eq!(get_uti_type(b"BM.."), "public.image");
    assert_eq!(get_uti_type(b"PK\x03\x04"), "public.zip-archive");
    assert_eq!(get_uti_type(&[0x1F, 0x8B, 8]), "org.gnu.gnu-zip-archive");
    assert_eq!(get_uti_type(b"%PDF-1.4"), "com.adobe.pdf");
    let mut tar = vec![0u8; 300];
    tar[257..262].copy_from_slice(b"ustar");
    assert_eq!(get_uti_type(&tar), "public.data");
    assert_eq!(get_uti_type(b"hello"), "public.content");
    assert_eq!(get_uti_type(&[]), "public.content");
    assert!(upload_is_gzip(&[0x1F, 0x8B, 0]));
    assert!(!upload_is_gzip(&[0x1F]));
}

#[test]
fn server_events() {
    match ask_event(None, Some("a.txt".to_string())) {
        ServerEvent::Ask { sender_name, file_name, file_size } => {
            assert_eq!(sender_name, "Unknown");
            assert_eq!(file_name, "a.txt");
            assert_eq!(file_size, 0);
        }
        _ => panic!("not an ask"),
    }
}

fn panel() -> PanelState {
    let c = AirDropConfig::new(
        Some("h".to_string()),
        None,
        None,
        None,
        Some("/tmp/x".to_string()),
        Some("abc".to_string()),
        None,
        None,
        false,
        Some("wlan0".to_string()),
        None,
        &[],
    )
    .unwrap();
    PanelState::new(c)
}

#[test]
fn panel_updates() {
    assert_eq!(Page::Send.label(), "Send");
    assert_eq!(Page::Receive.label(), "Receive");
    assert_eq!(Page::default(), Page::Send);
    let mut p = panel();
    let a = p.update(PanelMessage::Page(Page::Send));
    assert!(matches!(a.as_slice(), [PanelAction::StartDiscovery]));
    p.discovery_started();
    let a = p.update(PanelMessage::Page(Page::Send));
    assert!(a.is_empty());
    let a = p.update(PanelMessage::SendFile);
    assert!(a.is_empty());
    assert_eq!(p.send_messages.last().unwrap(), "No receiver selected");
    p.update(PanelMessage::SetSelectedReceiver("r1".to_string()));
    p.update(PanelMessage::SendFile);
    assert_eq!(p.send_messages.last().unwrap(), "No file selected");
    p.selected_file = Some("/tmp/f".to_string());
    p.update(PanelMessage::SendFile);
    assert_eq!(p.send_messages.last().unwrap(), "Receiver no longer available");
    let r = receiver_from_service("r1.local.", &[], 1, "h".to_string(), None);
    p.on_browser_found(r.clone());
    p.on_browser_found(r);
    assert_eq!(p.receivers.len(), 1);
    let a = p.update(PanelMessage::SendFile);
    assert_eq!(p.send_messages.last().unwrap(), "Sending /tmp/f ...");
    match a.as_slice() {
        [PanelAction::Send { receiver, file }] => {
            assert_eq!(receiver.id, "r1");
            assert_eq!(file, "/tmp/f");
        }
        _ => panic!("no send"),
    }
    p.on_browser_removed(&"r1".to_string());
    assert!(p.receivers.is_empty());
    let a = p.update(PanelMessage::ToggleReceive);
    assert!(matches!(a.as_slice(), [PanelAction::StartServer]));
    p.server_started(8771);
    assert_eq!(p.receive_messages.last().unwrap(), "Listening on port 8771...");
    p.on_server_event(&ServerEvent::Received { file_name: "f".to_string() });
    assert_eq!(p.receive_messages.last().unwrap(), "Saved: f");
    p.on_server_event(&ServerEvent::Start);
    assert_eq!(p.receive_messages.last().unwrap(), "Event: Start");
    let progress = ServerEvent::ReceiveProgress { file_name: "a\"b\\c\n.txt".to_string(), bytes: 10, total_bytes: 2048 };
    p.on_server_event(&progress);
    assert_eq!(p.receive_messages.last().unwrap(), &format!("Event: {progress:?}"));
    assert_eq!(
        p.receive_messages.last().unwrap(),
        "Event: ReceiveProgress { file_name: \"a\\\"b\\\\c\\n.txt\", bytes: 10, total_bytes: 2048 }"
    );
    let a = p.update(PanelMessage::ToggleReceive);
    assert!(matches!(a.as_slice(), [PanelAction::StopServer]));
    assert_eq!(p.receive_messages.last().unwrap(), "Stopped receiving.");
    p.update(PanelMessage::SetComputerName("new".to_string()));
    p.update(PanelMessage::ApplySettings);
    assert_eq!(p.config.computer_name, "new");
    p.server_failed("boom");
    assert_eq!(p.receive_messages.last().unwrap(), "Failed to start: boom");
    p.discovery_failed("no mdns");
    assert_eq!(p.send_messages.last().unwrap(), "Discovery error: no mdns");
}

#[test]
fn send_outcomes() {
    assert!(ask_outcome_line(&Ok(true)).is_none());
    assert_eq!(ask_outcome_line(&Ok(false)).unwrap(), "Receiver declined.");
    assert_eq!(ask_outcome_line(&Err("x".to_string())).unwrap(), "Ask error: x");
    assert_eq!(upload_outcome_line(&Ok(true)), "Upload successful.");
    assert_eq!(upload_outcome_line(&Ok(false)), "Upload failed.");
    assert_eq!(upload_outcome_line(&Err("y".to_string())), "Upload error: y");
}

#[test]
fn browser_table() {
    let first = receiver_from_service("abc._airdrop._tcp.local.", &[IpAddress::V4([10, 0, 0, 1])], 8771, "a.local.".to_string(), None);
    let again = receiver_from_service("abc._airdrop._tcp.local.", &[IpAddress::V4([10, 0, 0, 2])], 8772, "b.local.".to_string(), None);
    let other = receiver_from_service("xyz._airdrop._tcp.local.", &[], 1, "c.local.".to_string(), Some("8"));
    let mut t = ReceiverTable::new();
    t.resolved(first);
    t.resolved(again);
    t.resolved(other);
    assert_eq!(t.entries.len(), 2);
    assert_eq!(t.entries[0].port, 8771);
    let found = t.discovered(&"abc".to_string(), Some("Phone".to_string())).unwrap();
    assert_eq!(found.name, Some("Phone".to_string()));
    assert!(found.discoverable);
    assert!(t.entries[0].discoverable);
    let quiet = t.discovered(&"xyz".to_string(), None).unwrap();
    assert!(!quiet.discoverable);
    assert!(t.discovered(&"nope".to_string(), None).is_none());
    t.removed(&"abc".to_string());
    assert_eq!(t.entries.len(), 1);
    assert_eq!(t.entries[0].id, "xyz");
}

#[test]
fn panel_steps_leave_other_fields_alone() {
    let mut p = panel();
    p.discovery_started();
    let r = receiver_from_service("r1.local.", &[], 1, "h".to_string(), None);
    p.on_browser_found(r);
    p.update(PanelMessage::SetSelectedReceiver("r1".to_string()));
    p.selected_file = Some("/tmp/f".to_string());
    p.update(PanelMessage::SetComputerName("other".to_string()));
    p.update(PanelMessage::SetModel("m".to_string()));
    p.update(PanelMessage::SetInterface("wlan1".to_string()));
    p.update(PanelMessage::ApplySettings);
    assert_eq!(p.selected_receiver, Some("r1".to_string()));
    assert_eq!(p.selected_file, Some("/tmp/f".to_string()));
    assert_eq!(p.receivers.len(), 1);
    assert!(p.discovering);
    assert_eq!(p.config.computer_name, "other");
    assert_eq!(p.config.computer_model, "m");
    assert_eq!(p.config.interface, "wlan1");
    assert_eq!(p.config.service_id, "abc");
    assert_eq!(p.page, Page::Send);
    assert!(p.send_messages.is_empty());
}
