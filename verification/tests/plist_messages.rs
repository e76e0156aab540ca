use cosmicdrop::archive::{archive_file_names, compress_archive, upload_archive, UploadError};
use cosmicdrop::client::{ask_request, discover_answer_name, discover_request, file_type, receiver_name_from_answer};
use cosmicdrop::config::AirDropConfig;
use cosmicdrop::property_list::{dict_lookup, first_item, text_value, value_from_bytes, value_to_binary, PlistValue};
use cosmicdrop::server::{ask_answer, ask_event_from_body, ask_request_fields, discover_answer, ServerEvent};

fn config(record: Option<Vec<u8>>) -> AirDropConfig {
    let mut c = AirDropConfig::new(
        Some("host".to_string()),
        Some("Ada's laptop".to_string()),
        Some("Model X".to_string()),
        None,
        None,
        Some("0123456789ab".to_string()),
        None,
        None,
        false,
        None,
        Some("/home/u".to_string()),
        &[],
    )
    .unwrap();
    c.record_data = record;
    c
}

fn text(v: Option<&PlistValue>) -> Option<String> {
    text_value(v)
}

#[test]
fn discover_answer_fields() {
    let c = config(Some(vec![1, 2, 3]));
    let answer = discover_answer(&c);
    assert_eq!(text(dict_lookup(&answer, "ReceiverComputerName")), Some("Ada's laptop".to_string()));
    assert_eq!(text(dict_lookup(&answer, "ReceiverModelName")), Some("Model X".to_string()));
    assert_eq!(text(dict_lookup(&answer, "ReceiverMediaCapabilities")), Some("{\"Version\":1}".to_string()));
    match dict_lookup(&answer, "ReceiverRecordData") {
        Some(PlistValue::Data(d)) => assert_eq!(d, &vec![1, 2, 3]),
        _ => panic!("record data missing"),
    }
    assert!(dict_lookup(&answer, "SenderRecordData").is_none());
    let without = discover_answer(&config(None));
    assert!(dict_lookup(&without, "ReceiverRecordData").is_none());
}

#[test]
fn discover_answer_read_back_by_client() {
    let c = config(None);
    let bytes = value_to_binary(&discover_answer(&c)).unwrap();
    assert!(bytes.starts_with(b"bplist00"));
    assert_eq!(receiver_name_from_answer(&bytes), Some("Ada's laptop".to_string()));
    let decoded = value_from_bytes(&bytes).unwrap();
    assert_eq!(discover_answer_name(&decoded), Some("Ada's laptop".to_string()));
}

#[test]
fn discover_request_body() {
    let with = discover_request(&config(Some(vec![9])));
    match dict_lookup(&with, "SenderRecordData") {
        Some(PlistValue::Data(d)) => assert_eq!(d, &vec![9]),
        _ => panic!("record data missing"),
    }
    let without = discover_request(&config(None));
    match without {
        PlistValue::Dict(entries) => assert!(entries.is_empty()),
        _ => panic!("not a dictionary"),
    }
}

#[test]
fn ask_written_then_read_by_receiver() {
    let c = config(None);
    let jpeg = [0xFFu8, 0xD8, 0xFF, 0xE0, 0, 0];
    let ask = ask_request(&c, "photo.jpg", false, &jpeg, Some(vec![7, 7]));
    let bytes = value_to_binary(&ask).unwrap();
    match ask_event_from_body(&bytes) {
        ServerEvent::Ask { sender_name, file_name, file_size } => {
            assert_eq!(sender_name, "Ada's laptop");
            assert_eq!(file_name, "photo.jpg");
            assert_eq!(file_size, 0);
        }
        _ => panic!("not an ask"),
    }
    let decoded = value_from_bytes(&bytes).unwrap();
    let (sender, file) = ask_request_fields(&decoded);
    assert_eq!(sender, Some("Ada's laptop".to_string()));
    assert_eq!(file, Some("photo.jpg".to_string()));
    let entry = first_item(dict_lookup(&decoded, "Files")).unwrap();
    assert_eq!(text(dict_lookup(entry, "FileType")), Some("public.jpeg".to_string()));
    assert_eq!(text(dict_lookup(entry, "FileBomPath")), Some("./photo.jpg".to_string()));
    assert_eq!(text(dict_lookup(&decoded, "BundleID")), Some("com.apple.finder".to_string()));
    assert_eq!(text(dict_lookup(&decoded, "SenderID")), Some("0123456789ab".to_string()));
    assert!(matches!(dict_lookup(&decoded, "FileIcon"), Some(PlistValue::Data(_))));
}

#[test]
fn ask_for_a_folder_has_no_icon() {
    let c = config(Some(vec![5]));
    let ask = ask_request(&c, "docs", true, &[], Some(vec![1]));
    assert!(dict_lookup(&ask, "FileIcon").is_none());
    assert!(matches!(dict_lookup(&ask, "SenderRecordData"), Some(PlistValue::Data(_))));
    let entry = first_item(dict_lookup(&ask, "Files")).unwrap();
    assert_eq!(text(dict_lookup(entry, "FileType")), Some("public.folder".to_string()));
    assert!(matches!(dict_lookup(entry, "FileIsDirectory"), Some(PlistValue::Flag(true))));
}

#[test]
fn ask_event_defaults() {
    match ask_event_from_body(b"not a plist") {
        ServerEvent::Ask { sender_name, file_name, .. } => {
            assert_eq!(sender_name, "Unknown");
            assert_eq!(file_name, "file");
        }
        _ => panic!("not an ask"),
    }
    let empty = value_to_binary(&PlistValue::Dict(Vec::new())).unwrap();
    match ask_event_from_body(&empty) {
        ServerEvent::Ask { sender_name, file_name, .. } => {
            assert_eq!(sender_name, "Unknown");
            assert_eq!(file_name, "file");
        }
        _ => panic!("not an ask"),
    }
    assert!(value_from_bytes(b"not a plist").is_err());
}

#[test]
fn ask_answer_fields() {
    let c = config(None);
    let answer = ask_answer(&c);
    match &answer {
        PlistValue::Dict(entries) => {
            assert_eq!(entries.len(), 2);
            assert_eq!(entries[0].0, "ReceiverModelName");
            assert_eq!(entries[1].0, "ReceiverComputerName");
        }
        _ => panic!("not a dictionary"),
    }
    let bytes = value_to_binary(&answer).unwrap();
    let decoded = value_from_bytes(&bytes).unwrap();
    assert_eq!(text(dict_lookup(&decoded, "ReceiverModelName")), Some("Model X".to_string()));
}

#[test]
fn file_types() {
    assert_eq!(file_type(true, b"\x89PNG\r\n\x1a\n"), "public.folder");
    assert_eq!(file_type(false, b"\x89PNG\r\n\x1a\n"), "public.png");
    let mut long = vec![0x47u8, 0x49, 0x46, 0x38];
    long.resize(300, 0);
    assert_eq!(file_type(false, &long), "com.compuserve.gif");
}

#[test]
fn compressed_upload_is_taken_for_gzip() {
    let tar = b"a tar archive would be here".to_vec();
    let z = cosmicdrop::archive::compress_archive(&tar).unwrap();
    assert!(cosmicdrop::server::upload_is_gzip(&z));
    let mut back = Vec::new();
    std::io::Read::read_to_end(&mut flate2::read::GzDecoder::new(&z[..]), &mut back).unwrap();
    assert_eq!(back, tar);
    let empty = cosmicdrop::archive::compress_archive(&[]).unwrap();
    assert!(cosmicdrop::server::upload_is_gzip(&empty));
}

fn tar_of(entries: &[(&str, &[u8])]) -> Vec<u8> {
    let mut builder = tar::Builder::new(Vec::new());
    for (path, data) in entries {
        let mut header = tar::Header::new_gnu();
        header.set_size(data.len() as u64);
        header.set_mode(0o644);
        if path.ends_with('/') {
            header.set_entry_type(tar::EntryType::Directory);
        }
        builder.append_data(&mut header, path, *data).unwrap();
    }
    builder.into_inner().unwrap()
}

#[test]
fn received_upload_names_its_files() {
    let tar = tar_of(&[("a.txt", b"hello"), ("dir/", b""), ("dir/b.txt", b"x"), ("./c.txt", b"y")]);
    let z = compress_archive(&tar).unwrap();
    let unpacked = upload_archive(&z).unwrap();
    assert_eq!(unpacked, tar);
    assert_eq!(upload_archive(&tar).unwrap(), tar);
    assert_eq!(
        archive_file_names(&unpacked).unwrap(),
        vec!["a.txt".to_string(), "dir".to_string(), "b.txt".to_string(), "c.txt".to_string()]
    );
}

#[test]
fn broken_uploads() {
    assert_eq!(upload_archive(&[0x1F, 0x8B, 0, 0]).unwrap_err(), UploadError::Gzip);
    assert_eq!(archive_file_names(&[1u8; 512]).unwrap_err(), UploadError::Archive);
    assert!(archive_file_names(&[]).unwrap().is_empty());
}
