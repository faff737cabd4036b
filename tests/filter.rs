use nostrdb_jni::error::{BoundaryError, HandleRole};
use nostrdb_jni::handles::HandleTable;
use nostrdb_jni::marshal::needs_release;
use nostrdb_jni::filter::FilterDraft;

fn is_filter_err<T>(r: &Result<T, BoundaryError>) -> bool {
    matches!(r, Err(BoundaryError::Filter(_)))
}

#[test]
fn chain_of_transitions_builds() {
    let d = FilterDraft::new();
    let d = d.kinds(&vec![1, 0, 0, 0, 7, 0, 0, 0]).unwrap();
    let d = d.authors(&vec![2u8; 32]).unwrap();
    let d = d.tag("e", vec!["abc".to_string(), "def".to_string()]).unwrap();
    let d = d.tag("p", vec![]).unwrap();
    let d = d.since(10).unwrap();
    let d = d.until(20).unwrap();
    let d = d.limit(5).unwrap();
    let d = d.search("hello".to_string()).unwrap();
    let _f = d.build().unwrap();
}

#[test]
fn second_kinds_is_refused() {
    let d = FilterDraft::new().kinds(&vec![1, 0, 0, 0]).unwrap();
    assert!(is_filter_err(&d.kinds(&vec![2, 0, 0, 0])));
}

#[test]
fn second_authors_and_search_are_refused() {
    let d = FilterDraft::new().authors(&vec![]).unwrap();
    assert!(is_filter_err(&d.authors(&vec![1u8; 32])));
    let d = FilterDraft::new().search("a".to_string()).unwrap();
    assert!(is_filter_err(&d.search("b".to_string())));
}

#[test]
fn since_until_limit_replace() {
    let d = FilterDraft::new().since(1).unwrap().since(2).unwrap();
    let d = d.until(3).unwrap().until(4).unwrap().limit(1).unwrap().limit(9).unwrap();
    let _f = d.build().unwrap();
}

#[test]
fn empty_tag_name_is_refused() {
    assert!(is_filter_err(&FilterDraft::new().tag("", vec!["x".to_string()])));
}

#[test]
fn zero_byte_in_text_is_refused() {
    assert!(is_filter_err(&FilterDraft::new().tag("t", vec!["a\0b".to_string()])));
    assert!(is_filter_err(&FilterDraft::new().search("a\0".to_string())));
}

#[test]
fn eleventh_field_is_refused() {
    let mut d = FilterDraft::new();
    for _ in 0..10 {
        d = d.tag("t", vec!["v".to_string()]).unwrap();
    }
    assert!(is_filter_err(&d.since(1)));
}

#[test]
fn too_many_kinds_is_refused() {
    let bytes = vec![0u8; 4 * 40000];
    assert!(is_filter_err(&FilterDraft::new().kinds(&bytes)));
    let ok = vec![0u8; 4 * 1000];
    let _f = FilterDraft::new().kinds(&ok).unwrap().build().unwrap();
}

#[test]
fn each_builder_step_consumes_and_returns_new_draft() {
    let d0 = FilterDraft::new();
    let d1 = d0.limit(3).unwrap();
    let d2 = d1.limit(4).unwrap();
    let _f = d2.build().unwrap();
}

#[test]
fn kinds_up_to_the_element_room_build() {
    let most = vec![1u8; 4 * 32765];
    let _f = FilterDraft::new().kinds(&most).unwrap().build().unwrap();
    let one_more = vec![1u8; 4 * 32766];
    assert!(is_filter_err(&FilterDraft::new().kinds(&one_more)));
}

#[test]
fn authors_up_to_the_data_room_build() {
    let most = vec![7u8; 32 * 24576];
    let _f = FilterDraft::new().authors(&most).unwrap().build().unwrap();
    let one_more = vec![7u8; 32 * 24577];
    assert!(is_filter_err(&FilterDraft::new().authors(&one_more)));
}

#[test]
fn long_search_term_up_to_the_data_room_builds() {
    let most = "s".repeat(786431);
    let _f = FilterDraft::new().search(most).unwrap().build().unwrap();
    assert!(is_filter_err(&FilterDraft::new().search("s".repeat(786432))));
}

#[test]
fn consumed_builder_handle_is_refused() {
    let mut table: HandleTable<FilterDraft> = HandleTable::new();
    let h = table.insert(FilterDraft::new()).unwrap();
    assert_eq!(h, 1);
    let d = table.take(h, HandleRole::Filter).unwrap();
    let h2 = table.insert(d.limit(3).unwrap()).unwrap();
    assert_ne!(h2, h);
    assert!(matches!(table.take(h, HandleRole::Filter), Err(BoundaryError::InvalidState(_))));
    assert!(table.is_live(h2));
    assert!(matches!(table.take(0, HandleRole::Filter), Err(BoundaryError::NullPointer(HandleRole::Filter))));
    let _f = table.take(h2, HandleRole::Filter).unwrap().build().unwrap();
}

#[test]
fn releasing_zero_or_stale_handles_does_nothing() {
    assert!(!needs_release(0));
    assert!(needs_release(42));
    let mut table: HandleTable<FilterDraft> = HandleTable::new();
    let h = table.insert(FilterDraft::new()).unwrap();
    table.release(0);
    table.release(h + 1);
    assert!(table.is_live(h));
    table.release(h);
    assert!(!table.is_live(h));
    table.release(h);
    assert!(matches!(table.take(h, HandleRole::Filter), Err(BoundaryError::InvalidState(_))));
}

#[test]
fn empty_draft_is_not_built() {
    assert!(is_filter_err(&FilterDraft::new().build()));
}

#[test]
fn non_ascii_tag_key_is_refused() {
    assert!(is_filter_err(&FilterDraft::new().tag("ā", vec!["x".to_string()])));
    let _f = FilterDraft::new().tag("d", vec!["x".to_string()]).unwrap().build().unwrap();
}
