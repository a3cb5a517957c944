use radio_dedup::audio::{AudioData, AudioStorage};
use radio_dedup::classifier::SuggestedSegmentContentKind;
use radio_dedup::db::Db;
use radio_dedup::error::StorageError;
use radio_dedup::matches::{MatchData, MatchesStorage};
use radio_dedup::metadata::{AudioKind, Metadata, MetadataStorage};
use uuid::Uuid;

fn fixed_id() -> u128 {
    Uuid::parse_str("5e9805d9-276e-42d3-9736-637e64a78f98").unwrap().as_u128()
}

fn now_millis() -> i64 {
    chrono::Utc::now().timestamp_millis()
}

#[test]
fn test_a_add_track() {
    let mut db = Db::new();

    db.add_track(
        fixed_id(),
        SuggestedSegmentContentKind::Music,
        "audio/aac",
        "Artist 1",
        "title 1",
        &b"1234567890".to_vec(),
        now_millis(),
    )
    .unwrap();
}

#[test]
fn test_b_add_match() {
    // The catalog as the previous test leaves it.
    let mut db = Db::new();
    db.add_track(
        fixed_id(),
        SuggestedSegmentContentKind::Music,
        "audio/aac",
        "Artist 1",
        "title 1",
        &b"1234567890".to_vec(),
        now_millis(),
    )
    .unwrap();

    db.add_match(fixed_id(), 100, now_millis()).unwrap();
}

#[test]
fn audio_test() {
    let data = AudioData::new(
        Uuid::new_v4().as_u128(),
        "audio/aac".to_owned(),
        b"1234567890".to_vec(),
    );

    let mut db = AudioStorage::new();
    db.insert(&data).unwrap();

    let result = db.get(data.id).unwrap();
    assert_eq!(result, data);
}

#[test]
fn matches_test() {
    let id = Uuid::new_v4().as_u128();
    let now = now_millis();
    let data1 = MatchData::new(id, now, 25);
    let data2 = MatchData::new(id, now - 1000, 95);

    let mut db = MatchesStorage::new();
    db.insert(&data1).unwrap();
    db.insert(&data2).unwrap();

    let result = db.get(id).unwrap();
    assert_eq!(&result, &[data1, data2]);
}

#[test]
fn test_existing() {
    let metadata = Metadata::new(
        Uuid::new_v4().as_u128(),
        now_millis(),
        AudioKind::Music,
        "Artist".to_string(),
        "Title".to_string(),
    );

    let mut storage = MetadataStorage::new();
    storage.insert(&metadata).unwrap();
    let result = storage.get(metadata.id).unwrap();

    assert_eq!(metadata, result);
}

#[test]
fn test_non_existing() {
    let storage = MetadataStorage::new();
    assert!(storage.get(Uuid::new_v4().as_u128()).is_err());
}

#[test]
fn matches_come_newest_first_whatever_the_insert_order() {
    let mut db = MatchesStorage::new();
    db.insert(&MatchData::new(1, 200, 10)).unwrap();
    db.insert(&MatchData::new(2, 300, 20)).unwrap();
    db.insert(&MatchData::new(1, 100, 30)).unwrap();
    db.insert(&MatchData::new(1, 300, 40)).unwrap();
    let result = db.get(1).unwrap();
    assert_eq!(
        result,
        vec![MatchData::new(1, 300, 40), MatchData::new(1, 200, 10), MatchData::new(1, 100, 30)]
    );
    assert!(db.get(3).unwrap().is_empty());
}

#[test]
fn duplicate_metadata_row_is_refused() {
    let mut storage = MetadataStorage::new();
    let m = Metadata::new(7, 1, AudioKind::Talk, "A".to_string(), "T".to_string());
    storage.insert(&m).unwrap();
    let again = Metadata::new(7, 2, AudioKind::Music, "B".to_string(), "U".to_string());
    assert_eq!(storage.insert(&again), Err(StorageError::DuplicateId));
    assert_eq!(storage.get(7).unwrap(), m);
    assert!(storage.remove(7));
    assert_eq!(storage.get(7), Err(StorageError::NotFound));
    assert!(!storage.remove(7));
}

#[test]
fn audio_row_removal() {
    let mut storage = AudioStorage::new();
    let a = AudioData::new(3, "audio/aac".to_owned(), vec![1, 2, 3]);
    storage.insert(&a).unwrap();
    assert_eq!(storage.insert(&a), Err(StorageError::DuplicateId));
    assert!(storage.remove(3));
    assert_eq!(storage.get(3), Err(StorageError::NotFound));
}

#[test]
fn catalog_round_trip_keeps_bytes_and_metadata() {
    let mut db = Db::new();
    let bytes: Vec<u8> = (0..=255u8).collect();
    db.add_track(42, SuggestedSegmentContentKind::Talk, "audio/aac", "Host", "Morning show", &bytes, 1234)
        .unwrap();
    let t = db.get_track(42).unwrap();
    assert_eq!(t.id, 42);
    assert_eq!(t.added_at, 1234);
    assert_eq!(t.kind, AudioKind::Talk);
    assert_eq!(t.artist, "Host");
    assert_eq!(t.title, "Morning show");
    assert_eq!(t.content_type, "audio/aac");
    assert_eq!(t.bytes, bytes);
}

#[test]
fn catalog_refuses_empty_audio_without_creating_a_row() {
    let mut db = Db::new();
    let r = db.add_track(5, SuggestedSegmentContentKind::Music, "audio/aac", "A", "T", &Vec::new(), 1);
    assert_eq!(r, Err(StorageError::EmptyBytes));
    assert_eq!(db.get_track(5), Err(StorageError::NotFound));
    assert_eq!(db.add_match(5, 80, 2), Err(StorageError::UnknownTrack));
}

#[test]
fn catalog_refuses_a_taken_id() {
    let mut db = Db::new();
    db.add_track(5, SuggestedSegmentContentKind::Music, "audio/aac", "A", "T", &vec![1], 1).unwrap();
    let r = db.add_track(5, SuggestedSegmentContentKind::Talk, "audio/mp3", "B", "U", &vec![2], 2);
    assert_eq!(r, Err(StorageError::DuplicateId));
    assert_eq!(db.get_track(5).unwrap().artist, "A");
}

#[test]
fn match_for_unknown_or_deleted_track_is_refused() {
    let mut db = Db::new();
    assert_eq!(db.add_match(9, 90, 1), Err(StorageError::UnknownTrack));
    db.add_track(9, SuggestedSegmentContentKind::Music, "audio/aac", "A", "T", &vec![1, 2], 1).unwrap();
    db.add_match(9, 90, 10).unwrap();
    db.add_match(9, 80, 30).unwrap();
    db.add_match(9, 70, 20).unwrap();
    let m = db.get_matches(9).unwrap();
    assert_eq!(
        m,
        vec![MatchData::new(9, 30, 80), MatchData::new(9, 20, 70), MatchData::new(9, 10, 90)]
    );
    db.delete_track(9).unwrap();
    assert_eq!(db.add_match(9, 90, 40), Err(StorageError::UnknownTrack));
    assert_eq!(db.get_matches(9), Err(StorageError::NotFound));
    assert_eq!(db.delete_track(9), Err(StorageError::NotFound));
}

#[test]
fn delete_cascades_only_to_its_own_track() {
    let mut db = Db::new();
    db.add_track(1, SuggestedSegmentContentKind::Music, "audio/aac", "A", "T", &vec![1], 1).unwrap();
    db.add_track(2, SuggestedSegmentContentKind::Music, "audio/aac", "B", "U", &vec![2], 1).unwrap();
    db.add_match(1, 90, 5).unwrap();
    db.add_match(2, 91, 6).unwrap();
    db.delete_track(1).unwrap();
    assert_eq!(db.get_track(1), Err(StorageError::NotFound));
    assert_eq!(db.get_matches(2).unwrap(), vec![MatchData::new(2, 6, 91)]);
    assert_eq!(db.get_track(2).unwrap().bytes, vec![2]);
}

#[test]
fn unknown_track_is_not_found() {
    let db = Db::new();
    assert_eq!(db.get_track(Uuid::new_v4().as_u128()), Err(StorageError::NotFound));
}

#[test]
fn audio_kind_names() {
    assert_eq!(AudioKind::Advertisement.to_string(), "advertisement");
    assert_eq!(AudioKind::Music.to_string(), "music");
    assert_eq!(AudioKind::Talk.as_str(), "talk");
    assert_eq!(AudioKind::Unknown.as_str(), "unknown");
    assert_eq!(AudioKind::try_from("music"), Some(AudioKind::Music));
    assert_eq!(AudioKind::try_from("talk"), Some(AudioKind::Talk));
    assert_eq!(AudioKind::try_from("advertisement"), Some(AudioKind::Advertisement));
    assert_eq!(AudioKind::try_from("unknown"), Some(AudioKind::Unknown));
    assert_eq!(AudioKind::try_from("Music"), None);
    assert_eq!(
        AudioKind::from_suggested(SuggestedSegmentContentKind::Unknown),
        AudioKind::Unknown
    );
}

#[test]
fn audio_store_refuses_empty_bytes_without_a_row() {
    let mut storage = AudioStorage::new();
    let empty = AudioData::new(11, "audio/aac".to_owned(), Vec::new());
    assert_eq!(storage.insert(&empty), Err(StorageError::EmptyBytes));
    assert_eq!(storage.get(11), Err(StorageError::NotFound));
    let full = AudioData::new(11, "audio/aac".to_owned(), vec![0]);
    storage.insert(&full).unwrap();
    assert_eq!(storage.get(11).unwrap(), full);
}
