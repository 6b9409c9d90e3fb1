use yt_cli::downloader::{
    extract_video_id, format_upload_date, new_transcript_record, normalize_channel_url,
    search_url, video_id_from, RawPlaylistEntry, RawVideoInfo,
};
use yt_cli::transcriber::{TranscriptData, Utterance};

fn raw_entry() -> RawPlaylistEntry {
    RawPlaylistEntry {
        id: Some("abc".to_string()),
        title: None,
        url: None,
        channel: None,
        channel_id: None,
        uploader: None,
        uploader_id: None,
        duration: Some(61),
        view_count: Some(5),
        upload_date: None,
        playlist_uploader: Some("PU".to_string()),
        playlist_channel: None,
        playlist_channel_id: Some("PCID".to_string()),
    }
}

fn raw_info() -> RawVideoInfo {
    RawVideoInfo {
        id: Some("vid".to_string()),
        title: None,
        channel: None,
        uploader: Some("Uploader".to_string()),
        uploader_id: Some("@up".to_string()),
        duration: Some(100),
        upload_date: Some("20240131".to_string()),
        description: Some("desc".to_string()),
        view_count: None,
        like_count: Some(3),
        thumbnail: None,
        webpage_url: None,
        extractor: Some("youtube".to_string()),
    }
}

#[test]
fn playlist_entry_defaults_and_fallbacks() {
    let e = raw_entry().into_playlist_entry().unwrap();
    assert_eq!(e.id, "abc");
    assert_eq!(e.title, "Untitled");
    assert_eq!(e.url, "https://www.youtube.com/watch?v=abc");
    assert_eq!(e.channel.as_deref(), Some("PU"));
    assert_eq!(e.channel_id.as_deref(), Some("PCID"));
    assert_eq!(e.duration, Some(61));
}

#[test]
fn playlist_entry_priority_order() {
    let mut r = raw_entry();
    r.uploader = Some("U".to_string());
    r.playlist_channel = Some("PC".to_string());
    r.uploader_id = Some("UID".to_string());
    let e = r.into_playlist_entry().unwrap();
    assert_eq!(e.channel.as_deref(), Some("U"));
    assert_eq!(e.channel_id.as_deref(), Some("UID"));
    let mut r = raw_entry();
    r.channel = Some("C".to_string());
    r.uploader = Some("U".to_string());
    assert_eq!(r.into_playlist_entry().unwrap().channel.as_deref(), Some("C"));
}

#[test]
fn playlist_entry_without_id_is_dropped() {
    let mut r = raw_entry();
    r.id = None;
    assert!(r.into_playlist_entry().is_none());
}

#[test]
fn video_metadata_defaults() {
    let m = raw_info().into_metadata("https://youtu.be/vid");
    assert_eq!(m.id, "vid");
    assert_eq!(m.title, "Unknown Title");
    assert_eq!(m.channel, "Uploader");
    assert_eq!(m.url, "https://youtu.be/vid");
    let mut r = raw_info();
    r.uploader = None;
    r.id = None;
    let m = r.into_metadata("u");
    assert_eq!(m.channel, "Unknown Channel");
    assert_eq!(m.id, "");
}

#[test]
fn channel_urls_point_at_videos_tab() {
    assert_eq!(normalize_channel_url("https://www.youtube.com/@econ/videos/"), "https://www.youtube.com/@econ/videos");
    assert_eq!(normalize_channel_url("https://youtube.com/@econ"), "https://youtube.com/@econ/videos");
    assert_eq!(normalize_channel_url("@econ"), "https://www.youtube.com/@econ/videos");
    assert_eq!(normalize_channel_url("UC123"), "https://www.youtube.com/channel/UC123/videos");
}

#[test]
fn search_reference() {
    assert_eq!(search_url("rust verification", 10), "ytsearch10:rust verification");
    assert_eq!(search_url("x", 0), "ytsearch0:x");
}

#[test]
fn upload_date_formatting() {
    assert_eq!(format_upload_date("20240131"), "2024-01-31");
    assert_eq!(format_upload_date("2024"), "2024");
    assert_eq!(format_upload_date(""), "");
}

#[test]
fn video_ids_from_urls() {
    assert_eq!(extract_video_id("https://www.youtube.com/watch?v=abc123&t=5").as_deref(), Some("abc123"));
    assert_eq!(extract_video_id("https://youtu.be/xyz?si=1").as_deref(), Some("xyz"));
    assert_eq!(extract_video_id("https://YOUTU.BE/xyz").as_deref(), Some("xyz"));
    assert_eq!(extract_video_id("https://vimeo.com/12345/").as_deref(), Some("12345"));
    assert_eq!(extract_video_id("https://example.com/a/b?x=1").as_deref(), Some("b"));
    assert_eq!(extract_video_id("///").as_deref(), None);
    assert_eq!(video_id_from("https://youtube.com/watch?v=Q", "https://youtube.com/watch?v=q").as_deref(), Some("Q"));
}

#[test]
fn record_for_new_transcription() {
    let meta = raw_info().into_metadata("https://www.youtube.com/watch?v=vid");
    let data = TranscriptData {
        id: "job".to_string(),
        text: "one two three".to_string(),
        utterances: vec![
            Utterance { speaker: "A".to_string(), text: "one".to_string(), start: 0, end: 1, confidence: None },
            Utterance { speaker: "B".to_string(), text: "two three".to_string(), start: 1, end: 2, confidence: None },
        ],
        words: Vec::new(),
        confidence: None,
        audio_duration: None,
    };
    let r = new_transcript_record("https://www.youtube.com/watch?v=vid", "youtube", "/p", &meta, &data);
    assert_eq!(r.video_id, "vid");
    assert_eq!(r.channel, "Uploader");
    assert_eq!(r.channel_handle.as_deref(), Some("@up"));
    assert_eq!(r.speaker_count, 2);
    assert_eq!(r.word_count, 3);
    assert_eq!(r.description.as_deref(), Some("desc"));
}
