use psst_core::item_id::{FileId, ItemId, ItemIdType, LocalFileRegistry};

#[test]
fn item_id_invalid_constant_is_zero() {
    assert_eq!(ItemId::invalid().id, 0);
    assert_eq!(ItemId::invalid().id_type, ItemIdType::Unknown);
}

#[test]
fn item_id_default_equals_invalid() {
    let default_id = ItemId::default();
    assert_eq!(default_id, ItemId::invalid());
}

#[test]
fn item_id_from_base16_with_valid_input() {
    let result = ItemId::from_base16("deadbeef", ItemIdType::Track);
    assert!(result.is_some());
    let id = result.unwrap();
    assert_eq!(id.id, 0xdeadbeef);
    assert_eq!(id.id_type, ItemIdType::Track);
}

#[test]
fn item_id_from_base16_with_invalid_char() {
    let result = ItemId::from_base16("xyz", ItemIdType::Track);
    assert!(result.is_none());
}

#[test]
fn item_id_from_base16_with_empty_string() {
    let result = ItemId::from_base16("", ItemIdType::Track);
    assert!(result.is_some());
    assert_eq!(result.unwrap().id, 0);
}

#[test]
fn item_id_from_base62_with_valid_input() {
    // Test with a simple base62 string
    let result = ItemId::from_base62("abc", ItemIdType::Track);
    assert!(result.is_some());
    let id = result.unwrap();
    assert_eq!(id.id_type, ItemIdType::Track);
}

#[test]
fn item_id_from_base62_with_invalid_char() {
    // '@' is not a valid base62 character
    let result = ItemId::from_base62("@#$", ItemIdType::Track);
    assert!(result.is_none());
}

#[test]
fn item_id_from_base62_with_empty_string() {
    let result = ItemId::from_base62("", ItemIdType::Track);
    assert!(result.is_some());
    assert_eq!(result.unwrap().id, 0);
}

#[test]
fn item_id_base62_roundtrip() {
    let original = ItemId::new(123456789, ItemIdType::Track);
    let base62_str = original.to_base62();
    let recovered = ItemId::from_base62(&base62_str, ItemIdType::Track).unwrap();
    assert_eq!(original.id, recovered.id);
}

#[test]
fn item_id_base16_roundtrip() {
    let original = ItemId::new(0xdeadbeefcafe, ItemIdType::Track);
    let base16_str = original.to_base16();
    let recovered = ItemId::from_base16(&base16_str, ItemIdType::Track).unwrap();
    assert_eq!(original.id, recovered.id);
}

#[test]
fn item_id_raw_roundtrip() {
    let original = ItemId::new(0x123456789abcdef, ItemIdType::Track);
    let raw_bytes = original.to_raw();
    let recovered = ItemId::from_raw(&raw_bytes, ItemIdType::Track).unwrap();
    assert_eq!(original.id, recovered.id);
}

#[test]
fn item_id_from_raw_with_invalid_length() {
    let short_bytes = &[0u8; 10];
    let result = ItemId::from_raw(short_bytes, ItemIdType::Track);
    assert!(result.is_none());
}

#[test]
fn item_id_from_uri_with_track() {
    let uri = "spotify:track:4cOdK2wGLETKBW3PvgPWqT";
    let result = ItemId::from_uri(uri);
    assert!(result.is_some());
    let id = result.unwrap();
    assert_eq!(id.id_type, ItemIdType::Track);
}

#[test]
fn item_id_from_uri_with_episode() {
    let uri = "spotify:episode:4cOdK2wGLETKBW3PvgPWqT";
    let result = ItemId::from_uri(uri);
    assert!(result.is_some());
    let id = result.unwrap();
    assert_eq!(id.id_type, ItemIdType::Podcast);
}

#[test]
fn item_id_from_uri_with_unknown_type() {
    let uri = "spotify:unknown:4cOdK2wGLETKBW3PvgPWqT";
    let result = ItemId::from_uri(uri);
    assert!(result.is_some());
    let id = result.unwrap();
    assert_eq!(id.id_type, ItemIdType::Unknown);
}

#[test]
fn item_id_from_uri_with_invalid_format() {
    let uri = "invalid_uri";
    let result = ItemId::from_uri(uri);
    // Should return None because split(':').next_back() returns Some("invalid_uri")
    // but from_base62 will fail on invalid characters
    assert!(result.is_none());
}

#[test]
fn item_id_from_uri_with_empty_string() {
    let uri = "";
    let result = ItemId::from_uri(uri);
    // Empty string returns Some("") from next_back, then from_base62 with empty string
    assert!(result.is_some());
}

#[test]
fn item_id_to_uri_for_track() {
    let id = ItemId::new(123456, ItemIdType::Track);
    let uri = id.to_uri();
    assert!(uri.is_some());
    assert!(uri.unwrap().starts_with("spotify:track:"));
}

#[test]
fn item_id_to_uri_for_podcast() {
    let id = ItemId::new(123456, ItemIdType::Podcast);
    let uri = id.to_uri();
    assert!(uri.is_some());
    assert!(uri.unwrap().starts_with("spotify:podcast:"));
}

#[test]
fn item_id_to_uri_for_local_file() {
    let id = ItemId::new(123456, ItemIdType::LocalFile);
    let uri = id.to_uri();
    assert!(uri.is_none());
}

#[test]
fn item_id_to_uri_for_unknown() {
    let id = ItemId::new(123456, ItemIdType::Unknown);
    let uri = id.to_uri();
    assert!(uri.is_none());
}

#[test]
fn item_id_to_base16_has_correct_length() {
    let id = ItemId::new(123456, ItemIdType::Track);
    let base16 = id.to_base16();
    assert_eq!(base16.len(), 32); // 128 bits = 32 hex chars
}

#[test]
fn item_id_to_base62_has_correct_length() {
    let id = ItemId::new(123456, ItemIdType::Track);
    let base62 = id.to_base62();
    assert_eq!(base62.len(), 22); // Fixed length base62 encoding
}

#[test]
fn item_id_local_file_same_path_same_id() {
    // Use a unique path for this test to avoid interference from other tests
    let unique_path = "/tmp/test_same_unique_xyz123.mp3";

    let id1 = ItemId::from_local(unique_path);
    let id2 = ItemId::from_local(unique_path);
    
    assert_eq!(id1.id, id2.id);
}

#[test]
fn item_id_local_file_different_paths_different_ids() {
    let path1 = "/tmp/test_different1.mp3";
    let path2 = "/tmp/test_different2.mp3";
    
    let id1 = ItemId::from_local(path1);
    let id2 = ItemId::from_local(path2);
    
    assert_ne!(id1.id, id2.id);
}

#[test]
fn file_id_from_raw_with_valid_length() {
    let data = [0u8; 20];
    let result = FileId::from_raw(&data);
    assert!(result.is_some());
}

#[test]
fn file_id_from_raw_with_invalid_length() {
    let data = [0u8; 15];
    let result = FileId::from_raw(&data);
    assert!(result.is_none());
}

#[test]
fn file_id_to_base16_has_correct_length() {
    let file_id = FileId([0u8; 20]);
    let base16 = file_id.to_base16();
    assert_eq!(base16.len(), 40); // 20 bytes * 2 hex chars per byte
}

#[test]
fn file_id_to_base16_format() {
    let mut data = [0u8; 20];
    data[0] = 0xDE;
    data[1] = 0xAD;
    let file_id = FileId(data);
    let base16 = file_id.to_base16();
    assert!(base16.starts_with("dead"));
}

#[test]
fn file_id_deref_returns_slice() {
    let data = [42u8; 20];
    let file_id = FileId(data);
    let slice: &[u8] = &file_id;
    assert_eq!(slice.len(), 20);
    assert_eq!(slice[0], 42);
}

#[test]
fn item_id_string_conversion() {
    let id = ItemId::new(123456, ItemIdType::Track);
    let string: String = id.into();
    assert_eq!(string.len(), 22); // base62 encoding
}

#[test]
fn item_id_zero_value() {
    let id = ItemId::new(0, ItemIdType::Track);
    let base62 = id.to_base62();
    assert_eq!(base62, "0000000000000000000000");
}

#[test]
fn item_id_max_value() {
    let id = ItemId::new(u128::MAX, ItemIdType::Track);
    let base16 = id.to_base16();
    assert_eq!(base16, "ffffffffffffffffffffffffffffffff");
}

#[test]
fn item_id_types_equality() {
    let id1 = ItemId::new(123, ItemIdType::Track);
    let id2 = ItemId::new(123, ItemIdType::Track);
    let id3 = ItemId::new(123, ItemIdType::Podcast);
    
    assert_eq!(id1, id2);
    assert_ne!(id1, id3);
}

#[test]
fn item_id_scenario_base62_round_trip() {
    let id = ItemId::from_base62("4cOdK2wGLETKBW3PvgPWqT", ItemIdType::Track).unwrap();
    assert_eq!(id.id_type, ItemIdType::Track);
    assert_eq!(id.to_base62(), "4cOdK2wGLETKBW3PvgPWqT");
}

#[test]
fn item_id_base62_known_values() {
    assert_eq!(ItemId::from_base62("10", ItemIdType::Track).unwrap().id, 62);
    assert_eq!(ItemId::from_base62("Z", ItemIdType::Track).unwrap().id, 61);
    assert_eq!(ItemId::from_base62("a", ItemIdType::Track).unwrap().id, 10);
    assert_eq!(ItemId::new(62, ItemIdType::Track).to_base62(), "0000000000000000000010");
    assert_eq!(ItemId::new(u128::MAX, ItemIdType::Track).to_base62(), "7N42dgm5tFLK9N8MT7fHC7");
}

#[test]
fn item_id_base62_overflow_is_rejected() {
    assert!(ItemId::from_base62("7N42dgm5tFLK9N8MT7fHC8", ItemIdType::Track).is_none());
    assert!(ItemId::from_base62("zzzzzzzzzzzzzzzzzzzzzzz", ItemIdType::Track).is_none());
}

#[test]
fn item_id_base16_accepts_upper_case_and_writes_lower_case() {
    let id = ItemId::from_base16("DEADBEEF", ItemIdType::Podcast).unwrap();
    assert_eq!(id.id, 0xdeadbeef);
    assert_eq!(id.to_base16(), "000000000000000000000000deadbeef");
    assert!(ItemId::from_base16("123456789abcdef0123456789abcdef01", ItemIdType::Track).is_none());
}

#[test]
fn item_id_non_ascii_is_rejected() {
    assert!(ItemId::from_base62("ab\u{e9}", ItemIdType::Track).is_none());
    assert!(ItemId::from_base16("\u{e9}", ItemIdType::Track).is_none());
}

#[test]
fn item_id_raw_is_big_endian() {
    let raw = ItemId::new(0x0102, ItemIdType::Track).to_raw();
    assert_eq!(raw.len(), 16);
    assert_eq!(raw[14], 0x01);
    assert_eq!(raw[15], 0x02);
    let mut bytes = [0u8; 16];
    bytes[0] = 0x80;
    assert_eq!(ItemId::from_raw(&bytes, ItemIdType::Track).unwrap().id, 1u128 << 127);
}

#[test]
fn item_id_uri_round_trip() {
    let id = ItemId::new(123456, ItemIdType::Track);
    let uri = id.to_uri().unwrap();
    assert_eq!(uri, format!("spotify:track:{}", id.to_base62()));
    assert_eq!(ItemId::from_uri(&uri), Some(id));
    let podcast = ItemId::new(99, ItemIdType::Podcast).to_uri().unwrap();
    assert_eq!(podcast, "spotify:podcast:000000000000000000001B");
    // "podcast" is written but not read back as a type
    assert_eq!(ItemId::from_uri(&podcast).unwrap().id_type, ItemIdType::Unknown);
}

#[test]
fn item_id_uri_edge_cases() {
    let id = ItemId::from_uri("spotify:track:").unwrap();
    assert_eq!(id.id, 0);
    assert_eq!(id.id_type, ItemIdType::Track);
    assert!(ItemId::from_uri("spotify:track:a-b").is_none());
    assert_eq!(ItemId::from_uri("track:10").unwrap(), ItemId::new(62, ItemIdType::Track));
    assert_eq!(ItemId::from_uri("x:y:episode:10").unwrap().id_type, ItemIdType::Podcast);
}

#[test]
fn item_id_local_file_hash_is_fnv1a() {
    let id = ItemId::from_local("");
    assert_eq!(id.id, 0x6c62272e07bb014262b821756295c58d);
    assert_eq!(id.id_type, ItemIdType::LocalFile);
    let a = ItemId::from_local("a");
    assert_eq!(a.id, 0xd228cb696f1a8caf78912b704e4a8964);
}

#[test]
fn file_id_base16_round_trip() {
    let mut data = [0u8; 20];
    for (i, b) in data.iter_mut().enumerate() {
        *b = (i as u8) * 13;
    }
    let file_id = FileId(data);
    let text = file_id.to_base16();
    assert_eq!(&text[..6], "000d1a");
    assert_eq!(FileId::from_base16(&text), Some(file_id));
    assert_eq!(FileId::from_base16(&text.to_uppercase()), Some(file_id));
    assert!(FileId::from_base16(&text[..38]).is_none());
    assert!(FileId::from_base16("zz00000000000000000000000000000000000000").is_none());
    assert_eq!(FileId::from_raw(&data).unwrap().as_bytes(), &data[..]);
}

#[test]
fn local_file_registry_round_trip() {
    let mut registry = LocalFileRegistry::new();
    let id = registry.from_local("/tmp/test_audio.mp3");
    assert_eq!(id, ItemId::from_local("/tmp/test_audio.mp3"));
    assert_eq!(id.id_type, ItemIdType::LocalFile);
    assert_eq!(registry.to_local(id), Some("/tmp/test_audio.mp3".to_string()));
    let other = ItemId::from_local("/tmp/elsewhere.mp3");
    assert_eq!(registry.to_local(other), None);
}
