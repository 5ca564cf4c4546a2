use djicap::media::{
    choose_utc_offset, passthrough_codec, AnnexBCodec, VideoCodec,
    duration_ns, image_timestamp, passthrough_message, pts_to_ns, scaled_dimensions, select_media,
    transcoded_message, utc_offset_ns, MediaEntry, MediaFile, MATCH_PADDING_NS,
};
use djicap::protobuf::encode_media_msg;

fn starts(files: &[MediaFile]) -> Vec<(String, u64)> {
    files
        .iter()
        .map(|f| match f {
            MediaFile::Video { path, .. } => (path.clone(), f.window_start()),
            MediaFile::Image { path, .. } => (path.clone(), f.window_start()),
        })
        .collect()
}

#[test]
fn window_start_of_each_kind() {
    let v = MediaFile::Video { path: "a.MP4".into(), start_ns: 5, duration_ns: 10 };
    let i = MediaFile::Image { path: "b.JPG".into(), timestamp_ns: 7 };
    assert_eq!(v.window_start(), 5);
    assert_eq!(i.window_start(), 7);
}

#[test]
fn selection_keeps_overlapping_files_sorted() {
    let s = 1_000 * MATCH_PADDING_NS;
    let e = s + 600_000_000_000;
    let entries = vec![
        MediaEntry::Image { path: "late.JPG".into(), local_ns: e + 2 * MATCH_PADDING_NS + 3_600_000_000_000 },
        MediaEntry::Video { path: "during.MP4".into(), start_ns: s + 10, duration_ns: 5 },
        MediaEntry::Video { path: "before.MP4".into(), start_ns: s - 2 * MATCH_PADDING_NS, duration_ns: MATCH_PADDING_NS + 1 },
        MediaEntry::Video { path: "long_before.MP4".into(), start_ns: 0, duration_ns: 1 },
        MediaEntry::Image { path: "photo.JPG".into(), local_ns: s + 3_600_000_000_000 },
        MediaEntry::Image { path: "edge.JPG".into(), local_ns: e + MATCH_PADDING_NS + 3_600_000_000_000 },
        MediaEntry::Image { path: "past_edge.JPG".into(), local_ns: e + MATCH_PADDING_NS + 3_600_000_000_001 },
    ];
    let files = select_media(entries, s, e, 3_600_000_000_000);
    assert_eq!(
        starts(&files),
        vec![
            ("before.MP4".to_string(), s - 2 * MATCH_PADDING_NS),
            ("photo.JPG".to_string(), s),
            ("during.MP4".to_string(), s + 10),
            ("edge.JPG".to_string(), e + MATCH_PADDING_NS),
        ]
    );
}

#[test]
fn selection_is_stable_for_equal_starts() {
    let entries = vec![
        MediaEntry::Image { path: "b".into(), local_ns: 50 },
        MediaEntry::Video { path: "a".into(), start_ns: 50, duration_ns: 1 },
        MediaEntry::Image { path: "c".into(), local_ns: 40 },
        MediaEntry::Image { path: "d".into(), local_ns: 50 },
    ];
    let files = select_media(entries, 0, 100, 0);
    let names: Vec<String> = starts(&files).into_iter().map(|(p, _)| p).collect();
    assert_eq!(names, vec!["c", "b", "a", "d"]);
}

#[test]
fn selection_of_nothing() {
    assert!(select_media(Vec::new(), 10, 20, 0).is_empty());
}

#[test]
fn photo_times_apply_the_offset() {
    assert_eq!(image_timestamp(3_700, 3_600), 100);
    assert_eq!(image_timestamp(10, 20), 0);
    assert_eq!(image_timestamp(10, -5), 15);
    assert_eq!(utc_offset_ns(100, 3_700), 3_600);
    assert_eq!(utc_offset_ns(3_700, 100), -3_600);
}

#[test]
fn presentation_times_to_nanoseconds() {
    assert_eq!(pts_to_ns(90_000, 1, 90_000), 1_000_000_000);
    assert_eq!(pts_to_ns(3, 1001, 30_000), 100_100_000);
    assert_eq!(pts_to_ns(0, 1, 90_000), 0);
    assert_eq!(pts_to_ns(-5, 1, 90_000), 0);
    assert_eq!(pts_to_ns(10, 1, 0), 0);
    assert_eq!(pts_to_ns(i64::MAX, i32::MAX, 1), u64::MAX);
}

#[test]
fn passthrough_packets() {
    assert!(passthrough_message(10, -1, 1, 90_000, &[1], "h265").is_none());
    let (t, payload) = passthrough_message(10, 90_000, 1, 90_000, &[9, 9], "h265").unwrap();
    assert_eq!(t, 1_000_000_010);
    assert_eq!(payload, encode_media_msg(1_000_000_010, "camera", &[9, 9], "h265"));
    let (t, _) = passthrough_message(u64::MAX - 1, 90_000, 1, 90_000, &[], "h264").unwrap();
    assert_eq!(t, u64::MAX);
}

#[test]
fn transcoded_packets() {
    let (t, payload) = transcoded_message(5, Some(45_000), &[7]);
    assert_eq!(t, 500_000_005);
    assert_eq!(payload, encode_media_msg(500_000_005, "camera", &[7], "h264"));
    let (t, _) = transcoded_message(5, None, &[]);
    assert_eq!(t, 5);
}

#[test]
fn container_durations() {
    assert_eq!(duration_ns(-5), 0);
    assert_eq!(duration_ns(2_000_000), 2_000_000_000);
}

#[test]
fn scaling_keeps_aspect_and_even_sides() {
    assert_eq!(scaled_dimensions(1280, 3840, 2160), (1280, 720));
    assert_eq!(scaled_dimensions(1281, 3840, 2160), (1280, 720));
    assert_eq!(scaled_dimensions(1280, 4000, 3001), (1280, 960));
    assert_eq!(scaled_dimensions(1, 100, 100), (2, 2));
    assert_eq!(scaled_dimensions(640, 640, 1), (640, 2));
}

#[test]
fn utc_offset_from_first_complete_probe() {
    assert_eq!(choose_utc_offset(&vec![]), None);
    assert_eq!(choose_utc_offset(&vec![(Some(1), None), (None, Some(2))]), None);
    assert_eq!(
        choose_utc_offset(&vec![(None, Some(2)), (Some(100), Some(3_700)), (Some(0), Some(9))]),
        Some((1, 3_600))
    );
    assert_eq!(choose_utc_offset(&vec![(Some(500), Some(200))]), Some((0, -300)));
}

#[test]
fn passthrough_codecs() {
    assert_eq!(passthrough_codec(VideoCodec::Hevc), Some(("h265", AnnexBCodec::Hevc)));
    assert_eq!(passthrough_codec(VideoCodec::H265), Some(("h265", AnnexBCodec::Hevc)));
    assert_eq!(passthrough_codec(VideoCodec::H264), Some(("h264", AnnexBCodec::H264)));
    assert_eq!(passthrough_codec(VideoCodec::Other), None);
}
