use mimeframe::{receive_data_bulk, receive_data_oneshot, DecodeError};

fn header() -> Vec<u8> {
    vec![0x20, 0x09, 0x02, 0x14, 0x00]
}

fn mime_section(label: &str) -> Vec<u8> {
    let mut s = vec![b'M'];
    s.extend_from_slice(&(label.len() as u32).to_be_bytes());
    s.extend_from_slice(label.as_bytes());
    s
}

fn content_section(content: &[u8]) -> Vec<u8> {
    let mut s = vec![b'C'];
    s.extend_from_slice(&(content.len() as u32).to_be_bytes());
    s.extend_from_slice(content);
    s
}

#[test]
fn bulk_example_stream() {
    let buf = [
        0x20, 0x09, 0x02, 0x14, 0x00, b'M', 0, 0, 0, 4, b'T', b'E', b'X', b'T', b'C', 0, 0, 0, 4,
        b'G', b'O', b'O', b'D',
    ];
    let r = receive_data_bulk(&buf).unwrap();
    assert_eq!(r.len(), 1);
    assert_eq!(r[0].mime_type, vec!["TEXT".to_string()]);
    assert_eq!(r[0].content.as_slice(), b"GOOD");
}

#[test]
fn bulk_header_only_yields_no_items() {
    let r = receive_data_bulk(&header()).unwrap();
    assert!(r.is_empty());
}

#[test]
fn bulk_rejects_any_changed_magic_byte() {
    for i in 0..4 {
        let mut buf = header();
        buf.extend_from_slice(&mime_section("text"));
        buf[i] ^= 0x01;
        let r = receive_data_bulk(&buf);
        assert_eq!(r.unwrap_err(), DecodeError::BadMagic);
    }
}

#[test]
fn bulk_rejects_unsupported_version() {
    let mut buf = header();
    buf[4] = 0x01;
    buf.extend_from_slice(&mime_section("text"));
    buf.extend_from_slice(&content_section(b"GOOD"));
    let r = receive_data_bulk(&buf);
    assert_eq!(r.unwrap_err(), DecodeError::UnsupportedVersion);
}

#[test]
fn bulk_rejects_truncated_header() {
    assert_eq!(
        receive_data_bulk(&[]).unwrap_err(),
        DecodeError::TruncatedInput
    );
    assert_eq!(
        receive_data_bulk(&[0x20, 0x09, 0x02]).unwrap_err(),
        DecodeError::TruncatedInput
    );
    assert_eq!(
        receive_data_bulk(&[0x20, 0x09, 0x02, 0x14]).unwrap_err(),
        DecodeError::TruncatedInput
    );
}

#[test]
fn bulk_rejects_truncated_section() {
    let mut buf = header();
    buf.extend_from_slice(&[b'M', 0, 0]);
    assert_eq!(
        receive_data_bulk(&buf).unwrap_err(),
        DecodeError::TruncatedInput
    );

    let mut buf = header();
    buf.extend_from_slice(&[b'M', 0, 0, 0, 9, b'a']);
    assert_eq!(
        receive_data_bulk(&buf).unwrap_err(),
        DecodeError::TruncatedInput
    );
}

#[test]
fn bulk_rejects_invalid_utf8_label() {
    let mut buf = header();
    buf.extend_from_slice(&[b'M', 0, 0, 0, 2, 0xff, 0xfe]);
    let r = receive_data_bulk(&buf);
    assert_eq!(r.unwrap_err(), DecodeError::InvalidEncoding);
}

#[test]
fn bulk_decodes_multibyte_utf8_label() {
    let mut buf = header();
    buf.extend_from_slice(&mime_section("tête"));
    buf.extend_from_slice(&content_section(b"x"));
    let r = receive_data_bulk(&buf).unwrap();
    assert_eq!(r[0].mime_type, vec!["tête".to_string()]);
}

#[test]
fn bulk_rejects_content_without_mime_type() {
    let mut buf = header();
    buf.extend_from_slice(&content_section(b"GOOD"));
    assert_eq!(
        receive_data_bulk(&buf).unwrap_err(),
        DecodeError::ContentWithoutMimeType
    );

    // The pending labels are consumed by the first content section: a
    // second one right after it is an error too.
    let mut buf = header();
    buf.extend_from_slice(&mime_section("text"));
    buf.extend_from_slice(&content_section(b"GOOD"));
    buf.extend_from_slice(&content_section(b"MORE"));
    assert_eq!(
        receive_data_bulk(&buf).unwrap_err(),
        DecodeError::ContentWithoutMimeType
    );
}

#[test]
fn bulk_rejects_unknown_section_tag() {
    let mut buf = header();
    buf.push(b'X');
    assert_eq!(
        receive_data_bulk(&buf).unwrap_err(),
        DecodeError::UnknownSectionTag(b'X')
    );
}

#[test]
fn bulk_drops_trailing_labels() {
    let mut buf = header();
    buf.extend_from_slice(&mime_section("text/plain"));
    buf.extend_from_slice(&content_section(b"GOOD"));
    buf.extend_from_slice(&mime_section("text/html"));
    let r = receive_data_bulk(&buf).unwrap();
    assert_eq!(r.len(), 1);
    assert_eq!(r[0].mime_type, vec!["text/plain".to_string()]);
    assert_eq!(r[0].content.as_slice(), b"GOOD");
}

#[test]
fn bulk_round_trip_preserves_items() {
    // Encode two items, the second with zero-length content, and decode
    // them back.
    let mut buf = header();
    buf.extend_from_slice(&mime_section("text/plain"));
    buf.extend_from_slice(&mime_section("TEXT"));
    buf.extend_from_slice(&content_section(b"payload one"));
    buf.extend_from_slice(&mime_section("application/octet-stream"));
    buf.extend_from_slice(&content_section(b""));
    let r = receive_data_bulk(&buf).unwrap();
    assert_eq!(r.len(), 2);
    assert_eq!(
        r[0].mime_type,
        vec!["text/plain".to_string(), "TEXT".to_string()]
    );
    assert_eq!(r[0].content.as_slice(), b"payload one");
    assert_eq!(
        r[1].mime_type,
        vec!["application/octet-stream".to_string()]
    );
    assert_eq!(r[1].content.as_slice(), b"");
}

#[test]
fn bulk_keeps_duplicate_labels() {
    let mut buf = header();
    buf.extend_from_slice(&mime_section("text"));
    buf.extend_from_slice(&mime_section("text"));
    buf.extend_from_slice(&content_section(b"x"));
    let r = receive_data_bulk(&buf).unwrap();
    assert_eq!(
        r[0].mime_type,
        vec!["text".to_string(), "text".to_string()]
    );
}

#[test]
fn oneshot_single_label_carries_content() {
    let r = receive_data_oneshot(b"GOOD", &["text".to_string()]).unwrap();
    assert_eq!(r.len(), 1);
    assert_eq!(r[0].mime_type, vec!["text".to_string()]);
    assert_eq!(r[0].content.as_slice(), b"GOOD");
}

#[test]
fn oneshot_discards_empty_labels() {
    let r = receive_data_oneshot(b"GOOD", &["".to_string(), "text/plain".to_string()]).unwrap();
    assert_eq!(r.len(), 1);
    assert_eq!(r[0].mime_type, vec!["text/plain".to_string()]);
}

#[test]
fn oneshot_rejects_all_empty_labels() {
    let r = receive_data_oneshot(b"GOOD", &["".to_string()]);
    assert_eq!(r.unwrap_err(), DecodeError::NoValidMimeType);
}

#[test]
fn oneshot_accepts_empty_content() {
    let r = receive_data_oneshot(b"", &["text".to_string()]).unwrap();
    assert_eq!(r.len(), 1);
    assert_eq!(r[0].content.as_slice(), b"");
}

#[test]
fn error_descriptions_are_distinctive() {
    assert_eq!(DecodeError::BadMagic.describe(), "bad magic header");
    assert_eq!(
        DecodeError::UnknownSectionTag(b'X').describe(),
        "unknown section tag"
    );
}
