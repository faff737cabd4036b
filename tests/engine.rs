use nostrdb_jni::engine::{
    poll_for_notes,
    begin_txn, ingest_one, key_list_outcome, note_from_parts, lookup_outcome, note_by_id, note_by_key, open,
    profile_by_pubkey, query, subscribe, unsubscribe, unsubscribe_outcome,
};
use nostrdb_jni::error::{BoundaryError, EngineError};
use nostrdb_jni::filter::FilterDraft;
use nostrdb_jni::ingest::{count_accepted, ingest_batch, record_lines_of};
use nostrdb_jni::payload::TagElem;
use std::sync::Arc;
use std::time::{Duration, Instant};

const HELLO: &str = r#"["EVENT","b",{"id": "702555e52e82cc24ad517ba78c21879f6e47a7c0692b9b20df147916ae8731a3","pubkey": "32bf915904bfde2d136ba45dde32c88f4aca863783999faea2e847a8fafd2f15","created_at": 1702675561,"kind": 1,"tags": [],"content": "hello, world","sig": "2275c5f5417abfd644b7bc74f0388d70feb5d08b6f90fa18655dda5c95d013bfbc5258ea77c05b7e40e0ee51d8a2efa931dc7a0ec1db4c0a94519762c6625675"}]"#;

const HELLO_ID: &str = "702555e52e82cc24ad517ba78c21879f6e47a7c0692b9b20df147916ae8731a3";

fn hex_bytes(s: &str) -> Vec<u8> {
    hex::decode(s).unwrap()
}

fn fetch_until_found(ndb: &nostrdb::Ndb, id: &Vec<u8>) -> Option<Vec<u8>> {
    let start = Instant::now();
    while start.elapsed() < Duration::from_secs(10) {
        let txn = begin_txn(ndb).unwrap();
        if let Ok(Some(doc)) = note_by_id(ndb, &txn, id) {
            return Some(doc);
        }
    }
    None
}

#[test]
fn ingested_note_round_trips() {
    let ndb = open("/tmp/nostrdb_jni_tests/round_trip").unwrap();
    assert_eq!(ingest_one(&ndb, HELLO), Ok(()));
    let doc = fetch_until_found(&ndb, &hex_bytes(HELLO_ID)).expect("note stored");
    let expected = format!(
        "{{\"content\":\"hello, world\",\"created_at\":1702675561,\"id\":\"{}\",\"kind\":1,\"pubkey\":\"32bf915904bfde2d136ba45dde32c88f4aca863783999faea2e847a8fafd2f15\",\"sig\":\"2275c5f5417abfd644b7bc74f0388d70feb5d08b6f90fa18655dda5c95d013bfbc5258ea77c05b7e40e0ee51d8a2efa931dc7a0ec1db4c0a94519762c6625675\",\"tags\":[]}}",
        HELLO_ID
    );
    assert_eq!(String::from_utf8(doc).unwrap(), expected);
}

#[test]
fn batch_counts_accepted_lines() {
    let ndb = open("/tmp/nostrdb_jni_tests/batch").unwrap();
    let text = format!("{}\n\n{}\n{}", HELLO, "bad\0record", HELLO);
    assert_eq!(ingest_batch(&ndb, &text), 2);
}

#[test]
fn record_lines_skip_blank_lines() {
    let lines = record_lines_of("a\n\n  \t\nb\r\n c \n");
    assert_eq!(lines, vec!["a".to_string(), "b".to_string(), " c ".to_string()]);
    assert!(record_lines_of("").is_empty());
}

#[test]
fn wrong_id_length_is_refused_before_lookup() {
    let ndb = open("/tmp/nostrdb_jni_tests/id_length").unwrap();
    let txn = begin_txn(&ndb).unwrap();
    assert_eq!(note_by_id(&ndb, &txn, &vec![1u8; 31]), Err(BoundaryError::InvalidIdLength(31)));
    assert_eq!(
        profile_by_pubkey(&ndb, &txn, &vec![1u8; 33]),
        Err(BoundaryError::InvalidIdLength(33))
    );
}

#[test]
fn missing_records_are_absent() {
    let ndb = open("/tmp/nostrdb_jni_tests/missing").unwrap();
    let txn = begin_txn(&ndb).unwrap();
    assert_eq!(note_by_id(&ndb, &txn, &vec![7u8; 32]), Ok(None));
    assert_eq!(note_by_key(&ndb, &txn, 123456789), Ok(None));
    assert_eq!(profile_by_pubkey(&ndb, &txn, &vec![7u8; 32]), Ok(None));
}

#[test]
fn query_on_empty_database_is_an_empty_key_list() {
    let ndb = open("/tmp/nostrdb_jni_tests/query_empty").unwrap();
    let f = FilterDraft::new().kinds(&vec![1, 0, 0, 0]).unwrap().build().unwrap();
    let txn = begin_txn(&ndb).unwrap();
    assert_eq!(query(&ndb, &txn, &f, 10), Ok(vec![0, 0, 0, 0]));
}

#[test]
fn lookup_outcomes() {
    assert_eq!(lookup_outcome(Ok(vec![1, 2])), Ok(Some(vec![1, 2])));
    assert_eq!(lookup_outcome(Err(EngineError::NotFound)), Ok(None));
    assert_eq!(
        lookup_outcome(Err(EngineError::Other)),
        Err(BoundaryError::Nostrdb(EngineError::Other))
    );
}

#[test]
fn key_list_outcomes() {
    assert_eq!(
        key_list_outcome(Ok(vec![7, 42])),
        Ok(vec![2, 0, 0, 0, 7, 0, 0, 0, 0, 0, 0, 0, 42, 0, 0, 0, 0, 0, 0, 0])
    );
    assert_eq!(
        key_list_outcome(Err(EngineError::Other)),
        Err(BoundaryError::Nostrdb(EngineError::Other))
    );
}

#[test]
fn unsubscribe_outcomes() {
    assert!(matches!(unsubscribe_outcome(None), Err(BoundaryError::InvalidState(_))));
    assert_eq!(unsubscribe_outcome(Some(Ok(()))), Ok(()));
    assert_eq!(
        unsubscribe_outcome(Some(Err(EngineError::Other))),
        Err(BoundaryError::Nostrdb(EngineError::Other))
    );
}

#[test]
fn unsubscribe_needs_the_only_reference() {
    let ndb = open("/tmp/nostrdb_jni_tests/unsubscribe").unwrap();
    let f = FilterDraft::new().kinds(&vec![1, 0, 0, 0]).unwrap().build().unwrap();
    let sub = subscribe(&ndb, &f).unwrap();
    let mut shared = Arc::new(ndb);
    let second = Arc::clone(&shared);
    assert!(matches!(unsubscribe(&mut shared, sub), Err(BoundaryError::InvalidState(_))));
    drop(second);
    assert_eq!(unsubscribe(&mut shared, sub), Ok(()));
}

#[test]
fn count_accepted_counts_true_outcomes() {
    assert_eq!(count_accepted(&vec![true, false, true]), 2);
    assert_eq!(count_accepted(&vec![]), 0);
    assert_eq!(count_accepted(&vec![false, false]), 0);
}

#[test]
fn batch_lines_of_the_example_split_as_expected() {
    let text = format!("{}\n\n{}\n{}", "v1", "bad", "v2");
    assert_eq!(record_lines_of(&text), vec!["v1".to_string(), "bad".to_string(), "v2".to_string()]);
}

#[test]
fn note_from_parts_keeps_every_part() {
    let n = note_from_parts(
        [1u8; 32],
        [2u8; 32],
        7,
        99,
        "c".to_string(),
        [3u8; 64],
        vec![vec![TagElem::Text("p".to_string()), TagElem::Id([4u8; 32])]],
    );
    assert_eq!(n.id, [1u8; 32]);
    assert_eq!(n.pubkey, [2u8; 32]);
    assert_eq!(n.kind, 7);
    assert_eq!(n.created_at, 99);
    assert_eq!(n.content, "c");
    assert_eq!(n.sig, [3u8; 64]);
    assert_eq!(n.tags.len(), 1);
    assert!(matches!(&n.tags[0][1], TagElem::Id(b) if *b == [4u8; 32]));
}

#[test]
fn negative_query_limit_is_refused() {
    let ndb = open("/tmp/nostrdb_jni_tests/negative_limit").unwrap();
    let f = FilterDraft::new().limit(5).unwrap().build().unwrap();
    let txn = begin_txn(&ndb).unwrap();
    assert!(matches!(query(&ndb, &txn, &f, -1), Err(BoundaryError::InvalidState(_))));
}

const WITH_TAGS: &str = r#"["EVENT","b",{"id": "0b9f0e14727733e430dcb00c69b12a76a1e100f419ce369df837f7eb33e4523c","pubkey": "3f770d65d3a764a9c5cb503ae123e62ec7598ad035d836e2a810f3877a745b24","created_at": 1736785355,"kind": 0,"tags": [["alt","User profile for Derek Ross"],["i","twitter:derekmross","1634343988407726081"],["i","github:derekross","3edaf845975fa4500496a15039323fa3I"]],"content": "{\"about\":\"Building NostrPlebs.com and NostrNests.com. The purple pill helps the orange pill go down. Nostr is the social glue that binds all of your apps together.\",\"banner\":\"https://i.nostr.build/O2JE.jpg\",\"display_name\":\"Derek Ross\",\"lud16\":\"derekross@strike.me\",\"name\":\"Derek Ross\",\"nip05\":\"derekross@nostrplebs.com\",\"picture\":\"https://i.nostr.build/MVIJ6OOFSUzzjVEc.jpg\",\"website\":\"https://nostrplebs.com\",\"created_at\":1707238393}","sig": "51e1225ccaf9b6739861dc218ac29045b09d5cf3a51b0ac6ea64bd36827d2d4394244e5f58a4e4a324c84eeda060e1a27e267e0d536e5a0e45b0b6bdc2c43bbc"}]"#;

#[test]
fn ingested_tags_round_trip() {
    let ndb = open("/tmp/nostrdb_jni_tests/tags_round_trip").unwrap();
    assert_eq!(ingest_one(&ndb, WITH_TAGS), Ok(()));
    let id = hex_bytes("0b9f0e14727733e430dcb00c69b12a76a1e100f419ce369df837f7eb33e4523c");
    let doc = String::from_utf8(fetch_until_found(&ndb, &id).expect("note stored")).unwrap();
    assert!(doc.contains("\"tags\":[[\"alt\",\"User profile for Derek Ross\"],[\"i\",\"twitter:derekmross\",\"1634343988407726081\"],[\"i\",\"github:derekross\",\"3edaf845975fa4500496a15039323fa3I\"]]"));
    assert!(doc.contains("\"kind\":0,"));
}

#[test]
fn line_endings_and_unicode_blank_lines() {
    assert_eq!(record_lines_of("a\r\nb\r"), vec!["a".to_string(), "b\r".to_string()]);
    assert_eq!(record_lines_of("\u{3000}\u{a0}\n x"), vec![" x".to_string()]);
}

#[test]
fn poll_bound_above_int_range_is_refused() {
    let ndb = open("/tmp/nostrdb_jni_tests/poll_bound").unwrap();
    let f = FilterDraft::new().kinds(&vec![1, 0, 0, 0]).unwrap().build().unwrap();
    let sub = subscribe(&ndb, &f).unwrap();
    assert!(matches!(poll_for_notes(&ndb, sub, 0x8000_0000), Err(BoundaryError::InvalidState(_))));
    assert_eq!(poll_for_notes(&ndb, sub, 10), Ok(vec![0, 0, 0, 0]));
}
