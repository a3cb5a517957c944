use radio_dedup::classifier::{
    classify_segment, split_tag, KostaRadioSegmentInfo, ParseError, SuggestedSegmentContentKind,
};
use radio_dedup::emysound::{best_results, QueryResult, TrackInfo};
use radio_dedup::intake::{download_filename, intake_step, IntakeStep};
use radio_dedup::text::{chars_of, parse_i64};
use radio_dedup::tracker::{SegmentDownloadFilter, SegmentNumberFilter, SegmentUriFilter};
use uuid::Uuid;

#[allow(clippy::too_many_arguments)]
fn tag(
    spot: &str,
    media_base_id: &str,
    itunes: &str,
    amg_track: &str,
    amg_artist: &str,
    cartcut: &str,
    artwork: &str,
    length: &str,
    spot_instance: &str,
) -> String {
    format!(
        r#"offset=0,title="Song",artist="Band",url="song_spot=\"{spot}\" MediaBaseId=\"{media_base_id}\" itunesTrackId=\"{itunes}\" amgTrackId=\"{amg_track}\" amgArtistId=\"{amg_artist}\" TAID=\"0\" TPID=\"0\" cartcutId=\"{cartcut}\" amgArtworkURL=\"{artwork}\" length=\"{length}\" unsID=\"-1\" spotInstanceId=\"{spot_instance}\"""#
    )
}

fn kind_of(text: &str) -> SuggestedSegmentContentKind {
    classify_segment(Some(text)).unwrap().kind
}

#[test]
fn number_filter_accepts_each_rise_once() {
    let mut f = SegmentNumberFilter::new();
    let seen: Vec<bool> = [0usize, 1, 2, 2, 1, 5, 3, 6].iter().map(|n| f.need_download(*n)).collect();
    assert_eq!(seen, vec![false, true, true, false, false, true, false, true]);
}

#[test]
fn uri_filter_remembers_the_most_recent() {
    let mut f = SegmentUriFilter::new(2);
    assert!(f.need_download("a.aac"));
    assert!(f.need_download("b.aac"));
    assert!(!f.need_download("a.aac")); // a becomes the most recent
    assert!(f.need_download("c.aac")); // evicts b
    assert!(!f.need_download("a.aac"));
    assert!(f.need_download("b.aac"));
}

#[test]
fn filter_choice_dispatches() {
    let mut by_number = SegmentDownloadFilter::Number(SegmentNumberFilter::new());
    assert!(by_number.need_download(4, "x"));
    assert!(!by_number.need_download(4, "y"));
    let mut by_uri = SegmentDownloadFilter::Uri(SegmentUriFilter::new(10));
    assert!(by_uri.need_download(4, "x"));
    assert!(by_uri.need_download(4, "y"));
    assert!(!by_uri.need_download(5, "x"));
}

#[test]
fn music_segment_is_classified_as_music() {
    let text = tag("M", "1", "0", "0", "0", "0", "null", "00:03:00", "-1");
    let d = classify_segment(Some(&text)).unwrap();
    assert_eq!(d.kind, SuggestedSegmentContentKind::Music);
    assert_eq!(d.artist, "Band");
    assert_eq!(d.title, "Song");
    let info = d.info.unwrap();
    assert_eq!(info.length, 180);
    assert_eq!(info.media_base_id, 1);
    assert_eq!(info.uns_id, -1);
    assert_eq!(info.song_spot, 'M');
    assert!(info.amg_artwork_url.is_none());
    assert!(info.spot_instance_id.is_none());
}

#[test]
fn talk_segment_is_classified_as_talk() {
    let text = tag("T", "0", "0", "0", "0", "0", "", "00:00:00", "-1");
    assert_eq!(kind_of(&text), SuggestedSegmentContentKind::Talk);
}

#[test]
fn advertisement_segment_is_classified_as_advertisement() {
    let text = tag(
        "F",
        "0",
        "0",
        "-1",
        "0",
        "0",
        "null",
        "00:02:03",
        "688d6785-f34c-35a8-3255-1a9dd167fbd2",
    );
    let d = classify_segment(Some(&text)).unwrap();
    assert_eq!(d.kind, SuggestedSegmentContentKind::Advertisement);
    let info = d.info.unwrap();
    assert_eq!(
        info.spot_instance_id,
        Some(Uuid::parse_str("688d6785-f34c-35a8-3255-1a9dd167fbd2").unwrap().as_u128())
    );
    assert_eq!(info.length, 123);
}

#[test]
fn music_by_artwork_and_by_amg_ids() {
    let with_art = tag("F", "0", "0", "0", "0", "0", "http://img.example/cover.jpg", "00:01:00", "-1");
    let d = classify_segment(Some(&with_art)).unwrap();
    assert_eq!(d.kind, SuggestedSegmentContentKind::Music);
    assert_eq!(
        d.info.unwrap().amg_artwork_url.as_deref(),
        Some("http://img.example/cover.jpg")
    );
    let amg = tag("M", "0", "0", "7", "8", "0", "", "00:01:00", "-1");
    assert_eq!(kind_of(&amg), SuggestedSegmentContentKind::Music);
    let one_amg = tag("M", "0", "0", "7", "0", "0", "", "00:01:00", "-1");
    assert_eq!(kind_of(&one_amg), SuggestedSegmentContentKind::Unknown);
    let no_length = tag("M", "1", "0", "0", "0", "0", "", "00:00:00", "-1");
    assert_eq!(kind_of(&no_length), SuggestedSegmentContentKind::Unknown);
}

#[test]
fn talk_with_spot_instance_is_unknown() {
    let text = tag("T", "0", "0", "0", "0", "0", "", "00:00:00", "688d6785-f34c-35a8-3255-1a9dd167fbd2");
    assert_eq!(kind_of(&text), SuggestedSegmentContentKind::Unknown);
}

#[test]
fn advertisement_marker_without_tag() {
    let d = classify_segment(Some("offset=0,adContext=''")).unwrap();
    assert_eq!(d.kind, SuggestedSegmentContentKind::Advertisement);
    assert_eq!(d.artist, "Advertisement");
    assert_eq!(d.title, "Advertisement");
    assert!(d.info.is_none());
}

#[test]
fn missing_or_malformed_metadata_is_skipped() {
    assert_eq!(classify_segment(None).err(), Some(ParseError::NoMetadata));
    assert_eq!(classify_segment(Some("offset=0")).err(), Some(ParseError::Malformed));
    let bad_number = tag("M", "1x", "0", "0", "0", "0", "", "00:03:00", "-1");
    assert_eq!(classify_segment(Some(&bad_number)).err(), Some(ParseError::Malformed));
    let too_big = tag("M", "9223372036854775808", "0", "0", "0", "0", "", "00:03:00", "-1");
    assert_eq!(classify_segment(Some(&too_big)).err(), Some(ParseError::Malformed));
    let bad_hour = tag("M", "1", "0", "0", "0", "0", "", "24:00:00", "-1");
    assert_eq!(classify_segment(Some(&bad_hour)).err(), Some(ParseError::Malformed));
    let bad_shape = tag("M", "1", "0", "0", "0", "0", "", "0:03:00", "-1");
    assert_eq!(classify_segment(Some(&bad_shape)).err(), Some(ParseError::Malformed));
    let long_spot = tag("MM", "1", "0", "0", "0", "0", "", "00:03:00", "-1");
    assert_eq!(classify_segment(Some(&long_spot)).err(), Some(ParseError::Malformed));
}

#[test]
fn leap_second_counts_in_full() {
    let text = tag("M", "1", "0", "0", "0", "0", "", "00:00:60", "-1");
    let info = KostaRadioSegmentInfo::parse(&text).ok().unwrap();
    assert_eq!(info.length, 60);
}

#[test]
fn tag_without_offset_prefix_and_with_trailing_text() {
    let text = tag("M", "1", "0", "0", "0", "0", "", "00:03:00", "-1");
    let bare = text.strip_prefix("offset=0,").unwrap().to_owned() + " trailing";
    assert_eq!(kind_of(&bare), SuggestedSegmentContentKind::Music);
    let fields = split_tag(&bare).unwrap();
    assert_eq!(fields.len(), 14);
    let texts: Vec<String> = fields.iter().map(|f| f.iter().collect()).collect();
    assert_eq!(texts[0], "Song");
    assert_eq!(texts[2], "M");
    assert_eq!(texts[11], "00:03:00");
    assert_eq!(texts[13], "-1");
}

#[test]
fn decimal_reading_edges() {
    let read = |s: &str| parse_i64(&chars_of(s));
    assert_eq!(read("-9223372036854775808"), Some(i64::MIN));
    assert_eq!(read("9223372036854775807"), Some(i64::MAX));
    assert_eq!(read("9223372036854775808"), None);
    assert_eq!(read("-9223372036854775809"), None);
    assert_eq!(read("007"), Some(7));
    assert_eq!(read("-1"), Some(-1));
    assert_eq!(read(""), None);
    assert_eq!(read("-"), None);
    assert_eq!(read("1-"), None);
    assert_eq!(chars_of("héllo"), vec!['h', 'é', 'l', 'l', 'o']);
}

#[test]
fn kind_names() {
    assert_eq!(SuggestedSegmentContentKind::Unknown.as_str(), "none");
    assert_eq!(SuggestedSegmentContentKind::Music.as_str(), "music");
    assert!(!SuggestedSegmentContentKind::Unknown.wants_download());
    assert!(SuggestedSegmentContentKind::Talk.wants_download());
}

fn score_of(coverage: f64) -> u8 {
    let c = coverage as f32;
    assert!((0f32..=1f32).contains(&c));
    (c * 100f32).trunc() as u8
}

fn make_result(coverage: f64, artist: &str, title: &str) -> QueryResult {
    QueryResult::new(
        Uuid::new_v4().as_u128(),
        score_of(coverage),
        Some(artist.to_owned()),
        Some(title.to_owned()),
    )
}

#[test]
fn matcher_test() {
    let single = make_result(0.9, "Artist", "Title");
    let pair_a = make_result(0.6, "A", "B");
    let pair_b = make_result(0.3, "A", "B");
    let ids = vec![single.id(), pair_a.id(), pair_b.id()];

    let best = best_results(vec![single, pair_a, pair_b]);
    println!("{:?}", best.iter().map(|r| r.id()).collect::<Vec<_>>());
    assert_eq!(best.iter().map(|r| r.id()).collect::<Vec<_>>(), ids);
}

#[test]
fn consolidator_keeps_strong_and_paired_results() {
    let a = QueryResult::new(1, 90, Some("X".into()), Some("Y".into()));
    let b = QueryResult::new(2, 60, Some("P".into()), Some("Q".into()));
    let c = QueryResult::new(3, 30, Some("P".into()), Some("Q".into()));
    let kept: Vec<u128> = best_results(vec![a, b, c]).iter().map(|r| r.id()).collect();
    assert_eq!(kept, vec![1, 2, 3]);
}

#[test]
fn consolidator_drops_weak_and_unpaired_results() {
    assert!(best_results(Vec::new()).is_empty());
    // Sum above 100.
    let a = QueryResult::new(1, 70, Some("P".into()), None);
    let b = QueryResult::new(2, 40, Some("P".into()), None);
    assert!(best_results(vec![a, b]).is_empty());
    // Same id.
    let a = QueryResult::new(5, 50, Some("P".into()), None);
    let b = QueryResult::new(5, 45, Some("P".into()), None);
    assert!(best_results(vec![a, b]).is_empty());
    // Agreement on title alone suffices; a third unrelated result drops.
    let a = QueryResult::new(1, 50, Some("P".into()), Some("T".into()));
    let b = QueryResult::new(2, 40, Some("R".into()), Some("T".into()));
    let c = QueryResult::new(3, 74, Some("Z".into()), Some("W".into()));
    let d = QueryResult::new(4, 75, None, None);
    let kept: Vec<u128> = best_results(vec![a, b, c, d]).iter().map(|r| r.id()).collect();
    assert_eq!(kept, vec![1, 2, 4]);
}

#[test]
fn query_result_and_track_info_accessors() {
    let r = QueryResult::new(8, 33, Some("A".into()), None);
    assert_eq!(r.id(), 8);
    assert_eq!(r.score(), 33);
    assert_eq!(r.artist().as_deref(), Some("A"));
    assert!(r.title().is_none());
    let t = TrackInfo::new(8, "A".into(), "T".into());
    assert_eq!(t.id, 8);
    assert_eq!(t.title, "T");
}

#[test]
fn non_ascii_title_and_artist_are_kept() {
    let text = tag("M", "1", "0", "0", "0", "0", "", "00:03:00", "-1")
        .replace("title=\"Song\"", "title=\"Café \u{1F3B5}\"")
        .replace("artist=\"Band\"", "artist=\"Zoë, \"The\" Band\"");
    let d = classify_segment(Some(&text)).unwrap();
    assert_eq!(d.title, "Café \u{1F3B5}");
    assert_eq!(d.artist, "Zoë, \"The\" Band");
    assert_eq!(d.kind, SuggestedSegmentContentKind::Music);
}

#[test]
fn song_spot_may_be_any_unicode_letter_or_digit() {
    let greek = tag("Μ", "1", "0", "0", "0", "0", "", "00:03:00", "-1");
    let info = KostaRadioSegmentInfo::parse(&greek).ok().unwrap();
    assert_eq!(info.song_spot, 'Μ');
    let digit = tag("٣", "1", "0", "0", "0", "0", "", "00:03:00", "-1");
    assert_eq!(KostaRadioSegmentInfo::parse(&digit).ok().unwrap().song_spot, '٣');
    let underscore = tag("_", "1", "0", "0", "0", "0", "", "00:03:00", "-1");
    assert_eq!(kind_of(&underscore), SuggestedSegmentContentKind::Unknown);
    let punct = tag("!", "1", "0", "0", "0", "0", "", "00:03:00", "-1");
    assert_eq!(classify_segment(Some(&punct)).err(), Some(ParseError::Malformed));
}

#[test]
fn download_file_names() {
    assert_eq!(
        download_filename(
            "2024-01-02_03-04-05",
            SuggestedSegmentContentKind::Music,
            "Band",
            "Song",
            Some("seg_17.aac")
        ),
        "2024-01-02_03-04-05_music_Band_Song.seg_17.aac"
    );
    assert_eq!(
        download_filename("t", SuggestedSegmentContentKind::Unknown, "A", "B", None),
        "t_none_A_B.unknown"
    );
}

#[test]
fn intake_step_after_consolidation() {
    assert_eq!(intake_step(&Vec::new()), IntakeStep::NewTrack);
    let best = vec![
        QueryResult::new(4, 80, None, None),
        QueryResult::new(9, 60, Some("A".into()), None),
    ];
    assert_eq!(intake_step(&best), IntakeStep::Repeat(vec![(4, 80), (9, 60)]));
}
