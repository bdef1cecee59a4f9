use seam_probe::text::{is_blank, json_or_raw, json_payload, session_id, utf8_or_empty};

#[test]
fn blank_detection() {
    assert!(is_blank(""));
    assert!(is_blank(" \t\r\n"));
    assert!(!is_blank(" x "));
    assert!(is_blank("\u{3000}\u{85}\u{a0}\u{2028}\u{0b}"));
    assert!(!is_blank("\u{200b}"));
}

#[test]
fn utf8_reading() {
    assert_eq!(utf8_or_empty("héllo".as_bytes()), "héllo");
    assert_eq!(utf8_or_empty(&[0xff, 0xfe]), "");
    assert_eq!(session_id(None), "");
    assert_eq!(session_id(Some(b"sess-1")), "sess-1");
    assert_eq!(session_id(Some(&[0xc3])), "");
}

#[test]
fn json_or_lossy_text() {
    assert_eq!(json_or_raw(b"{\"a\": 1}"), (Some(b"{\"a\": 1}".to_vec()), None));
    assert_eq!(json_or_raw(b"not json"), (None, Some("not json".to_string())));
    assert_eq!(json_or_raw(&[0x61, 0xff]), (None, Some("a\u{fffd}".to_string())));
    assert_eq!(json_payload(b" [1,2] "), Some(b" [1,2] ".to_vec()));
    assert_eq!(json_payload(b"[1,"), None);
}
