use psst_core::cache::{metadata_entry_name, track_from_entry, CacheClass};
use psst_core::item_id::{ItemId, ItemIdType};
use psst_core::record::{decode_track, encode_track, Track};

fn track(name: &str) -> Track {
    Track {
        gid: None,
        name: Some(name.to_string()),
        number: Some(1),
        disc_number: Some(1),
        duration: Some(180000),
        popularity: Some(75),
        explicit: Some(false),
    }
}

#[test]
fn record_round_trip_keeps_every_field() {
    let t = Track {
        gid: Some(vec![1, 2, 3]),
        name: Some("Tëst Track ♪".to_string()),
        number: Some(-5),
        disc_number: None,
        duration: Some(i32::MAX),
        popularity: Some(i32::MIN),
        explicit: Some(true),
    };
    let bytes = encode_track(&t);
    assert_eq!(decode_track(&bytes), Some(t));
    let empty = Track {
        gid: None,
        name: None,
        number: None,
        disc_number: None,
        duration: None,
        popularity: None,
        explicit: None,
    };
    let bytes = encode_track(&empty);
    assert_eq!(bytes, vec![0, 0, 0, 7, 0, 0, 0, 0, 0, 0, 0]);
    assert_eq!(decode_track(&bytes), Some(empty));
}

#[test]
fn record_layout_is_length_prefixed() {
    let t = Track {
        gid: None,
        name: Some("ab".to_string()),
        number: Some(0x01020304),
        disc_number: None,
        duration: None,
        popularity: None,
        explicit: Some(false),
    };
    assert_eq!(
        encode_track(&t),
        vec![0, 0, 0, 18, 0, 1, 0, 0, 0, 2, b'a', b'b', 1, 1, 2, 3, 4, 0, 0, 0, 1, 0]
    );
}

#[test]
fn truncated_record_fails_to_decode() {
    let bytes = encode_track(&track("Track 1"));
    for k in 0..bytes.len() {
        assert!(decode_track(&bytes[..k]).is_none(), "cut at {}", k);
    }
    let mut longer = bytes.clone();
    longer.push(0);
    assert!(decode_track(&longer).is_none());
}

#[test]
fn invalid_and_empty_bytes_are_a_miss() {
    assert!(decode_track(b"invalid protobuf data").is_none());
    assert!(decode_track(b"").is_none());
    assert!(track_from_entry(Some(b"")).is_none());
    assert!(track_from_entry(None).is_none());
    // a bad presence byte
    assert!(decode_track(&[0, 0, 0, 1, 7]).is_none());
    // a name that is not UTF-8
    assert!(decode_track(&[0, 0, 0, 12, 0, 1, 0, 0, 0, 1, 0xff, 0, 0, 0, 0, 0]).is_none());
}

#[test]
fn distinct_ids_have_distinct_entries_and_records() {
    let a = ItemId::new(123, ItemIdType::Track);
    let b = ItemId::new(456, ItemIdType::Track);
    assert_ne!(metadata_entry_name(a), metadata_entry_name(b));
    assert_eq!(metadata_entry_name(a), a.to_base62());
    let ra = encode_track(&track("Track 1"));
    let rb = encode_track(&track("Track 2"));
    assert_eq!(track_from_entry(Some(&ra)).unwrap().name, Some("Track 1".to_string()));
    assert_eq!(track_from_entry(Some(&rb)).unwrap().name, Some("Track 2".to_string()));
}

#[test]
fn cache_directories() {
    let names: Vec<&str> = CacheClass::all().into_iter().map(|c| c.dir_name()).collect();
    assert_eq!(names, vec!["track", "episode", "audio", "key"]);
}
