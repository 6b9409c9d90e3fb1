use yt_cli::config::{
    database_path, downloads_dir, env_file_path, firefox_cookies_args, transcripts_dir,
    validate_config,
};
use yt_cli::error::Error;
use yt_cli::index::StoredMetadata;
use yt_cli::storage::{
    get_platform_from_url, leaf_info, list_transcripts, platform_of_lowered, sanitize_filename,
    storage_path, text_file_name, transcript_content, TranscriptInfo,
};

#[test]
fn sanitize_replaces_reserved_characters() {
    assert_eq!(sanitize_filename("a<b>c:d", 100), "a_b_c_d");
    assert_eq!(sanitize_filename("what? *now*", 100), "what_now");
}

#[test]
fn sanitize_collapses_whitespace_and_underscores() {
    assert_eq!(sanitize_filename("  hello   world  ", 100), "hello_world");
    assert_eq!(sanitize_filename("a__b\t\nc", 100), "a_b_c");
    assert_eq!(sanitize_filename("a\u{3000}b", 100), "a_b");
}

#[test]
fn sanitize_only_reserved_is_untitled() {
    assert_eq!(sanitize_filename("<>:\"/\\|?*", 100), "untitled");
    assert_eq!(sanitize_filename("", 100), "untitled");
    assert_eq!(sanitize_filename("   ", 50), "untitled");
}

#[test]
fn sanitize_truncates_and_trims_trailing_underscore() {
    assert_eq!(sanitize_filename("abcdef ghi", 7), "abcdef");
    assert_eq!(sanitize_filename("abcdefghij", 4), "abcd");
    assert_eq!(sanitize_filename("anything", 0), "untitled");
}

#[test]
fn sanitize_is_idempotent() {
    for name in ["My Channel: Live!", "  __x__  ", "a/b\\c", "", "Économie  d'été", "abcdef ghi"] {
        for max in [8usize, 50, 100] {
            let once = sanitize_filename(name, max);
            assert_eq!(sanitize_filename(&once, max), once);
            assert!(!once.is_empty());
        }
    }
}

#[test]
fn sanitize_bound_shorter_than_untitled_cuts_it() {
    let once = sanitize_filename("***", 7);
    assert_eq!(once, "untitled");
    assert_eq!(sanitize_filename(&once, 7), "untitle");
}

#[test]
fn platform_of_known_domains() {
    assert_eq!(get_platform_from_url("https://www.youtube.com/watch?v=x"), "youtube");
    assert_eq!(get_platform_from_url("https://youtu.be/abc"), "youtube");
    assert_eq!(get_platform_from_url("HTTPS://WWW.VIMEO.COM/123"), "vimeo");
    assert_eq!(get_platform_from_url("https://x.com/user/status/1"), "twitter");
    assert_eq!(get_platform_from_url("https://fb.watch/abc"), "facebook");
    assert_eq!(get_platform_from_url("https://m.tiktok.com/@u/video/1"), "tiktok");
}

#[test]
fn platform_of_unknown_domain_is_first_label() {
    assert_eq!(get_platform_from_url("https://www.example.org/video"), "example");
    assert_eq!(get_platform_from_url("rumble.com/v123"), "rumble");
    assert_eq!(get_platform_from_url(""), "unknown");
    assert_eq!(platform_of_lowered("https://.hidden/x"), "unknown");
}

#[test]
fn platform_is_deterministic() {
    let url = "https://www.twitch.tv/videos/1";
    assert_eq!(get_platform_from_url(url), get_platform_from_url(url));
    assert_eq!(get_platform_from_url(url), "twitch");
}

#[test]
fn storage_path_layout() {
    assert_eq!(
        storage_path("/data/transcripts", "youtube", "My Channel", "abc?1"),
        "/data/transcripts/youtube/My_Channel/abc_1"
    );
    assert_eq!(storage_path("/data/transcripts/", "vimeo", "", "x"), "/data/transcripts/vimeo/untitled/x");
}

#[test]
fn config_paths_under_data_dir() {
    assert_eq!(transcripts_dir("/home/u/.yt-transcribe"), "/home/u/.yt-transcribe/transcripts");
    assert_eq!(downloads_dir("/d"), "/d/.downloads");
    assert_eq!(database_path("/d/"), "/d/transcripts.db");
    assert_eq!(env_file_path("/d"), "/d/.env");
}

#[test]
fn validate_config_needs_key() {
    assert!(validate_config(Some("key")).is_ok());
    assert!(matches!(validate_config(None), Err(Error::ApiKeyMissing)));
}

fn meta(channel: Option<&str>, handle: Option<&str>) -> StoredMetadata {
    StoredMetadata {
        id: Some("vid".to_string()),
        url: Some("https://www.youtube.com/watch?v=vid".to_string()),
        title: Some("Title".to_string()),
        channel: channel.map(String::from),
        uploader_id: handle.map(String::from),
        duration: Some(125),
        upload_date: Some("20240102".to_string()),
    }
}

#[test]
fn leaf_info_defaults_without_metadata() {
    let t = leaf_info("/r/youtube/Chan/vid", "vid", Some("Chan"), Some("youtube"), None);
    assert_eq!(t.title, "vid");
    assert_eq!(t.channel, "Chan");
    assert_eq!(t.platform, "youtube");
    assert!(t.channel_handle.is_none() && t.duration.is_none() && t.url.is_none());
    let shallow = leaf_info("vid", "vid", None, None, None);
    assert_eq!(shallow.channel, "Unknown");
    assert_eq!(shallow.platform, "unknown");
}

#[test]
fn leaf_info_takes_metadata_fields() {
    let m = meta(Some("Economics Explained"), Some("@econ"));
    let t = leaf_info("/r/youtube/Chan/vid", "vid", Some("Chan"), Some("youtube"), Some(&m));
    assert_eq!(t.channel, "Economics Explained");
    assert_eq!(t.channel_handle.as_deref(), Some("@econ"));
    assert_eq!(t.duration, Some(125));
    assert_eq!(t.upload_date.as_deref(), Some("20240102"));
    let m2 = meta(None, None);
    let t2 = leaf_info("/r/youtube/Chan/vid", "vid", Some("Chan"), Some("youtube"), Some(&m2));
    assert_eq!(t2.channel, "Chan");
}

fn info(channel: &str, handle: Option<&str>) -> TranscriptInfo {
    TranscriptInfo {
        path: format!("/r/{}", channel),
        title: "t".to_string(),
        channel: channel.to_string(),
        channel_handle: handle.map(String::from),
        platform: "youtube".to_string(),
        duration: None,
        upload_date: None,
        url: None,
    }
}

#[test]
fn list_filters_channel_and_handle_case_insensitively() {
    let found = vec![
        info("Economics Explained", Some("@EconExplained")),
        info("Cooking", Some("@cook")),
        info("MacroECONOMICS", None),
    ];
    let by_channel = list_transcripts(found.clone(), Some("economics"), None);
    assert_eq!(by_channel.len(), 2);
    assert_eq!(by_channel[0].channel, "Economics Explained");
    assert_eq!(by_channel[1].channel, "MacroECONOMICS");
    let by_handle = list_transcripts(found.clone(), None, Some("econ"));
    assert_eq!(by_handle.len(), 1);
    assert_eq!(by_handle[0].channel, "Economics Explained");
    assert_eq!(list_transcripts(found, None, None).len(), 3);
}

#[test]
fn text_file_prefers_markdown() {
    assert_eq!(text_file_name(true), "transcript.md");
    assert_eq!(text_file_name(false), "transcript.txt");
}

#[test]
fn reading_fails_only_when_both_files_are_missing() {
    let r = transcript_content("/x", None, None);
    match r {
        Err(Error::FileNotFound(m)) => assert_eq!(m, "No transcript found at /x"),
        _ => panic!("expected a not-found error"),
    }
    let ok = transcript_content("/x", Some("text".to_string()), None).unwrap();
    assert_eq!(ok.text.as_deref(), Some("text"));
    assert!(ok.structured.is_none());
}

#[test]
fn cookie_arguments_for_each_setup() {
    assert_eq!(firefox_cookies_args(None, None, None), vec!["--cookies-from-browser", "firefox"]);
    assert_eq!(
        firefox_cookies_args(Some("/c"), Some("/c/work-profile/cookies.sqlite"), None),
        vec!["--cookies", "/c/work-profile/cookies.sqlite"]
    );
    assert_eq!(firefox_cookies_args(Some("/c"), None, None), vec!["--cookies", "/c/default/cookies.sqlite"]);
    assert_eq!(firefox_cookies_args(Some("/c"), None, Some("work")), vec!["--cookies", "/c/work/cookies.sqlite"]);
}
