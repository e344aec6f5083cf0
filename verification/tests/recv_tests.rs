use mimeframe::{read_content, read_mime_types, receive_data_bulk, receive_data_oneshot};

#[test]
fn test_read_mime_types() {
    // Length is not 4 bytes
    let buf = [0u8, 0, 0];
    let r = read_mime_types(&buf, 0);
    assert!(r.is_err());

    // Not enough data
    let buf = [0u8, 0, 0, 1];
    let r = read_mime_types(&buf, 0);
    assert!(r.is_err());

    let buf = [0u8, 0, 0, 4, b't', b'e', b'x', b't'];
    let (r, _end) = read_mime_types(&buf, 0).unwrap();
    assert_eq!(r, "text");
}

#[test]
fn test_read_content() {
    // Length is not 4 bytes
    let buf = [0u8, 0, 0];
    let r = read_content(&buf, 0);
    assert!(r.is_err());

    // Not enough data
    let buf = [0u8, 0, 0, 1];
    let r = read_content(&buf, 0);
    assert!(r.is_err());

    let buf = [0u8, 0, 0, 5, b't', b'e', b'x', b't', 0x42];
    let (r, _end) = read_content(&buf, 0).unwrap();
    assert_eq!(r, vec![b't', b'e', b'x', b't', 0x42]);

    // Read 256+ bytes
    let mut buf = [0u8; (1 << 8) + 4];
    buf[2] = 1;
    let (r, _end) = read_content(&buf, 0).unwrap();
    assert_eq!(r, [0u8; 1 << 8]);
}

#[test]
fn test_receive_data_bulk() {
    // Wrong magic
    let buf = [0x02, 0x09, 0x02, 0x14, 0x00, b'M'];
    let r = receive_data_bulk(&buf);
    assert!(r.is_err());

    // Wrong protocol version
    let buf = [0x20, 0x09, 0x02, 0x14, 99, b'M'];
    let r = receive_data_bulk(&buf);
    assert!(r.is_err());

    // correct
    let buf =
        [0x20, 0x09, 0x02, 0x14, 0x00,
        b'M', 0, 0, 0, 10, b't', b'e', b'x', b't', b'/', b'p', b'l', b'a', b'i', b'n',
        b'M', 0, 0, 0, 4, b'T', b'E', b'X', b'T',
        b'C', 0, 0, 0, 4, b'G', b'O', b'O', b'D',
        b'M', 0, 0, 0, 9, b't', b'e', b'x', b't', b'/', b'h', b't', b'm', b'l',
        b'C', 0, 0, 0, 3, b'B', b'A', b'D',
        ];
    let r = receive_data_bulk(&buf).unwrap();
    assert_eq!(r.len(), 2);

    let data1 = &r[0];
    assert_eq!(data1.mime_type.len(), 2);
    assert_eq!(data1.mime_type[0], "text/plain");
    assert_eq!(data1.mime_type[1], "TEXT");
    assert_eq!(data1.content.as_slice(), b"GOOD");
    let data2 = &r[1];
    assert_eq!(data2.mime_type.len(), 1);
    assert_eq!(data2.mime_type[0], "text/html");
    assert_eq!(data2.content.as_slice(), b"BAD");
}

#[test]
fn test_receive_data_oneshot() {
    let buf = [b'G', b'O', b'O', b'D'];

    // With one mime-type
    let r = receive_data_oneshot(&buf, &["text".to_string()]).unwrap();
    assert_eq!(r.len(), 1);
    assert_eq!(r[0].mime_type.len(), 1);
    assert_eq!(r[0].mime_type[0], "text");

    // With two mime-types
    let r = receive_data_oneshot(&buf, &["text".to_string(), "text/plain".to_string()]).unwrap();
    assert_eq!(r.len(), 1);
    assert_eq!(r[0].mime_type.len(), 2);
    assert_eq!(r[0].mime_type[0], "text");
    assert_eq!(r[0].mime_type[1], "text/plain");

    // With zero mime-type
    let r = receive_data_oneshot(&buf, &["".to_string()]);
    assert!(r.is_err())
}
