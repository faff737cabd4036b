use nostrdb_jni::error::{BoundaryError, Category, EngineError, HandleRole};
use nostrdb_jni::marshal::{bytes_to_32, check_handle, decode_authors, decode_kinds, tag_key};
use nostrdb_jni::wire::{encode_key_list, encode_pubkey_list};

#[test]
fn key_list_of_two_keys() {
    let bytes = encode_key_list(&vec![7, 42]);
    assert_eq!(
        bytes,
        vec![
            0x02, 0x00, 0x00, 0x00, 0x07, 0x00, 0x00, 0x00, 0x00, 0x00, 0x00, 0x00, 0x2A, 0x00,
            0x00, 0x00, 0x00, 0x00, 0x00, 0x00
        ]
    );
}

#[test]
fn key_list_empty_and_large_key() {
    assert_eq!(encode_key_list(&vec![]), vec![0, 0, 0, 0]);
    let bytes = encode_key_list(&vec![0x0102_0304_0506_0708]);
    assert_eq!(bytes, vec![1, 0, 0, 0, 8, 7, 6, 5, 4, 3, 2, 1]);
}

#[test]
fn pubkey_list_layout() {
    let a = [0xAAu8; 32];
    let mut b = [0u8; 32];
    b[0] = 1;
    b[31] = 2;
    let bytes = encode_pubkey_list(&vec![a, b]);
    assert_eq!(bytes.len(), 4 + 64);
    assert_eq!(&bytes[0..4], &[2, 0, 0, 0]);
    assert_eq!(&bytes[4..36], &a[..]);
    assert_eq!(&bytes[36..68], &b[..]);
}

#[test]
fn fixed_32_accepts_exactly_32() {
    let v: Vec<u8> = (0..32).collect();
    let arr = bytes_to_32(&v).unwrap();
    assert_eq!(&arr[..], &v[..]);
}

#[test]
fn fixed_32_refuses_other_lengths() {
    for n in [0usize, 1, 31, 33, 64] {
        let v = vec![9u8; n];
        assert_eq!(bytes_to_32(&v), Err(BoundaryError::InvalidIdLength(n)));
    }
}

#[test]
fn zero_handle_is_null_for_each_role() {
    for role in [HandleRole::Database, HandleRole::Transaction, HandleRole::Filter] {
        assert_eq!(check_handle(0, role), Err(BoundaryError::NullPointer(role)));
        assert_eq!(check_handle(1, role), Ok(()));
        assert_eq!(check_handle(-5, role), Ok(()));
    }
    assert_eq!(HandleRole::Database.name(), "ndb");
    assert_eq!(HandleRole::Transaction.name(), "transaction");
    assert_eq!(HandleRole::Filter.name(), "filter");
}

#[test]
fn kinds_are_little_endian_u32_chunks() {
    let bytes = vec![1, 0, 0, 0, 0x10, 0x27, 0, 0, 0xFF, 0xFF, 0xFF, 0xFF, 9, 9];
    assert_eq!(decode_kinds(&bytes), vec![1, 10000, 0xFFFF_FFFF]);
    assert_eq!(decode_kinds(&vec![]), Vec::<u64>::new());
}

#[test]
fn authors_are_32_byte_chunks() {
    let mut bytes = vec![3u8; 32];
    bytes.extend(vec![4u8; 32]);
    bytes.extend(vec![5u8; 10]);
    let authors = decode_authors(&bytes);
    assert_eq!(authors, vec![[3u8; 32], [4u8; 32]]);
}

#[test]
fn tag_key_is_first_char() {
    assert_eq!(tag_key("d"), Ok('d'));
    assert_eq!(tag_key("pubkey"), Ok('p'));
    assert!(matches!(tag_key(""), Err(BoundaryError::Filter(_))));
}

#[test]
fn error_categories_and_classes() {
    let cases = vec![
        (BoundaryError::Jni("x".to_string()), Category::Runtime, "java/lang/RuntimeException"),
        (BoundaryError::Nostrdb(EngineError::NotFound), Category::NoSuchElement, "java/util/NoSuchElementException"),
        (BoundaryError::Nostrdb(EngineError::OpenFailed), Category::Io, "java/io/IOException"),
        (BoundaryError::Nostrdb(EngineError::Other), Category::Library, "xyz/tcheeric/nostrdb/NostrdbException"),
        (BoundaryError::InvalidIdLength(3), Category::IllegalArgument, "java/lang/IllegalArgumentException"),
        (BoundaryError::NullPointer(HandleRole::Filter), Category::NullPointer, "java/lang/NullPointerException"),
        (BoundaryError::InvalidUtf8, Category::IllegalArgument, "java/lang/IllegalArgumentException"),
        (BoundaryError::Json, Category::Library, "xyz/tcheeric/nostrdb/NostrdbException"),
        (BoundaryError::Filter("f".to_string()), Category::Library, "xyz/tcheeric/nostrdb/NostrdbException"),
        (BoundaryError::InvalidState("s".to_string()), Category::IllegalState, "java/lang/IllegalStateException"),
        (BoundaryError::Panic("p".to_string()), Category::Runtime, "java/lang/RuntimeException"),
    ];
    for (e, cat, class) in cases {
        assert_eq!(e.category(), cat);
        assert_eq!(e.exception_class(), class);
    }
}
