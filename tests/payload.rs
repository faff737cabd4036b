use nostrdb_jni::payload::{note_document, profile_document, NoteRecord, ProfileFields, TagElem};

fn text(b: Vec<u8>) -> String {
    String::from_utf8(b).unwrap()
}

#[test]
fn note_document_exact() {
    let mut id = [0u8; 32];
    id[0] = 0xAB;
    id[31] = 0x01;
    let n = NoteRecord {
        id,
        pubkey: [0x0Fu8; 32],
        kind: 1,
        created_at: 1702675561,
        content: "hi \"you\"\n\\ \u{1} é".to_string(),
        sig: [0xFFu8; 64],
        tags: vec![
            vec![TagElem::Text("e".to_string()), TagElem::Id([0xABu8; 32])],
            vec![],
            vec![TagElem::Text("t".to_string())],
        ],
    };
    let expected = format!(
        "{{\"content\":\"hi \\\"you\\\"\\n\\\\ \\u0001 é\",\"created_at\":1702675561,\"id\":\"ab{}01\",\"kind\":1,\"pubkey\":\"{}\",\"sig\":\"{}\",\"tags\":[[\"e\",\"{}\"],[],[\"t\"]]}}",
        "00".repeat(30),
        "0f".repeat(32),
        "ff".repeat(64),
        "ab".repeat(32)
    );
    assert_eq!(text(note_document(&n)), expected);
}

#[test]
fn note_document_no_tags_and_zero_time() {
    let n = NoteRecord {
        id: [0u8; 32],
        pubkey: [0u8; 32],
        kind: 0,
        created_at: 0,
        content: String::new(),
        sig: [0u8; 64],
        tags: vec![],
    };
    let doc = text(note_document(&n));
    assert!(doc.starts_with("{\"content\":\"\",\"created_at\":0,\"id\":\""));
    assert!(doc.ends_with("\",\"tags\":[]}"));
}

#[test]
fn profile_document_without_profile_is_empty() {
    assert_eq!(text(profile_document(&None)), "{}");
}

#[test]
fn profile_document_fields_in_order() {
    let p = ProfileFields {
        name: Some("Derek".to_string()),
        display_name: None,
        about: Some("a\tb".to_string()),
        picture: None,
        banner: None,
        website: Some("https://x".to_string()),
        lud06: None,
        lud16: None,
        nip05: Some("d@x".to_string()),
    };
    assert_eq!(
        text(profile_document(&Some(p))),
        "{\"about\":\"a\\tb\",\"banner\":null,\"display_name\":null,\"lud06\":null,\"lud16\":null,\"name\":\"Derek\",\"nip05\":\"d@x\",\"picture\":null,\"website\":\"https://x\"}"
    );
}
