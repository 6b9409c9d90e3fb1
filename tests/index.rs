use rusqlite::{Connection, ToSql};
use yt_cli::error::Error;
use yt_cli::index::{
    fts_query, get_stats, index_record, list_all_transcripts, migration_plan, reindex_all,
    reindex_unit, ReindexUnit,
    speaker_count, word_count, StatsRow, StoredMetadata, TranscriptMetadata, TranscriptRecord,
};
use yt_cli::schema::{
    DELETE_SHADOW_SQL, GET_BY_ID_SQL, SCHEMA_SQL, SEARCH_SQL, UPSERT_SHADOW_SQL, UPSERT_SQL,
};
use yt_cli::transcriber::{TranscriptData, Utterance};

fn utt(speaker: &str, text: &str) -> Utterance {
    Utterance { speaker: speaker.to_string(), text: text.to_string(), start: 0, end: 0, confidence: None }
}

fn transcript(text: &str, speakers: &[&str]) -> TranscriptData {
    TranscriptData {
        id: "job".to_string(),
        text: text.to_string(),
        utterances: speakers.iter().map(|s| utt(s, "x")).collect(),
        words: Vec::new(),
        confidence: Some(0.5f64.to_bits()),
        audio_duration: Some(10),
    }
}

fn no_metadata() -> StoredMetadata {
    StoredMetadata { id: None, url: None, title: None, channel: None, uploader_id: None, duration: None, upload_date: None }
}

#[test]
fn word_count_splits_on_whitespace() {
    assert_eq!(word_count(""), 0);
    assert_eq!(word_count("   "), 0);
    assert_eq!(word_count("hello world"), 2);
    assert_eq!(word_count("  one\ttwo\n three  "), 3);
    assert_eq!(word_count("a\u{00a0}b"), 2);
}

#[test]
fn speaker_count_counts_distinct_tokens() {
    assert_eq!(speaker_count(&Vec::new()), 0);
    assert_eq!(speaker_count(&transcript("", &["A", "B", "A", "C", "B"]).utterances), 3);
}

#[test]
fn fts_query_quotes_and_doubles_quotes() {
    assert_eq!(fts_query("hello"), "\"hello\"");
    assert_eq!(fts_query("say \"hi\""), "\"say \"\"hi\"\"\"");
    assert_eq!(fts_query(""), "\"\"");
}

#[test]
fn index_record_from_path_without_metadata() {
    let parts = vec!["youtube".to_string(), "Chan".to_string(), "vid1".to_string()];
    let d = transcript("hello big world", &["A", "B", "A"]);
    let r = index_record("vid1", &parts, "/r/youtube/Chan/vid1", &no_metadata(), &d);
    assert_eq!(r.video_id, "vid1");
    assert_eq!(r.title, "vid1");
    assert_eq!(r.url, "");
    assert_eq!(r.platform, "youtube");
    assert_eq!(r.channel, "Chan");
    assert_eq!(r.speaker_count, 2);
    assert_eq!(r.word_count, 3);
    assert_eq!(r.path, "/r/youtube/Chan/vid1");
    assert_eq!(r.transcript_text, "hello big world");
}

#[test]
fn index_record_shallow_path_defaults() {
    let parts = vec!["vid1".to_string()];
    let r = index_record("vid1", &parts, "/r/vid1", &no_metadata(), &transcript("", &[]));
    assert_eq!(r.platform, "vid1");
    assert_eq!(r.channel, "Unknown");
    let none: Vec<String> = Vec::new();
    let r2 = index_record("vid1", &none, "/r", &no_metadata(), &transcript("", &[]));
    assert_eq!(r2.platform, "unknown");
}

#[test]
fn index_record_prefers_metadata() {
    let parts = vec!["youtube".to_string(), "Chan".to_string(), "dir".to_string()];
    let m = StoredMetadata {
        id: Some("realid".to_string()),
        url: Some("https://youtu.be/realid".to_string()),
        title: Some("A Title".to_string()),
        channel: Some("Real Channel".to_string()),
        uploader_id: Some("@real".to_string()),
        duration: Some(99),
        upload_date: Some("20230101".to_string()),
    };
    let r = index_record("dir", &parts, "/p", &m, &transcript("w", &["A"]));
    assert_eq!(r.video_id, "realid");
    assert_eq!(r.title, "A Title");
    assert_eq!(r.channel, "Real Channel");
    assert_eq!(r.url, "https://youtu.be/realid");
    assert_eq!(r.duration, Some(99));
    assert_eq!(r.upload_date.as_deref(), Some("20230101"));
}

#[test]
fn reindex_unit_skips_on_either_error() {
    let parts = vec!["youtube".to_string(), "Chan".to_string()];
    let bad = reindex_unit("d", &parts, "/p", Err(Error::Json("bad".to_string())), Ok(None));
    assert!(matches!(bad, Err(Error::Json(_))));
    let bad_meta = reindex_unit("d", &parts, "/p", Ok(transcript("a b", &[])), Err(Error::Io("x".to_string())));
    assert!(matches!(bad_meta, Err(Error::Io(_))));
    let ok = reindex_unit("d", &parts, "/p", Ok(transcript("a b", &[])), Ok(None)).unwrap();
    assert_eq!(ok.video_id, "d");
    assert_eq!(ok.word_count, 2);
}

fn record(id: i64, platform: &str, channel: &str, handle: Option<&str>) -> TranscriptRecord {
    TranscriptRecord {
        id,
        video_id: format!("v{}", id),
        url: None,
        title: "t".to_string(),
        channel: channel.to_string(),
        channel_handle: handle.map(String::from),
        platform: platform.to_string(),
        duration: None,
        upload_date: None,
        path: "/p".to_string(),
        speaker_count: None,
        word_count: None,
    }
}

#[test]
fn listing_filters_platform_and_channel() {
    let rows = vec![
        record(5, "youtube", "Economics Explained", Some("@econ")),
        record(4, "vimeo", "Economics Explained", None),
        record(3, "youtube", "Cooking", None),
        record(2, "youtube", "MACROECONOMICS daily", None),
    ];
    let got = list_all_transcripts(rows.clone(), Some("youtube"), Some("economics"), None, 20);
    assert_eq!(got.iter().map(|r| r.id).collect::<Vec<_>>(), vec![5, 2]);
    for r in &got {
        assert_eq!(r.platform, "youtube");
        assert!(r.channel.to_lowercase().contains("economics"));
    }
    let limited = list_all_transcripts(rows.clone(), None, None, None, 2);
    assert_eq!(limited.iter().map(|r| r.id).collect::<Vec<_>>(), vec![5, 4]);
    let unlimited = list_all_transcripts(rows.clone(), None, None, None, -1);
    assert_eq!(unlimited.len(), 4);
    let by_handle = list_all_transcripts(rows, None, None, Some("ECON"), 20);
    assert_eq!(by_handle.iter().map(|r| r.id).collect::<Vec<_>>(), vec![5]);
}

#[test]
fn stats_totals() {
    let rows = vec![
        StatsRow { channel: Some("A".to_string()), platform: Some("youtube".to_string()), duration: Some(60), word_count: Some(10) },
        StatsRow { channel: Some("B".to_string()), platform: Some("youtube".to_string()), duration: None, word_count: Some(5) },
        StatsRow { channel: Some("A".to_string()), platform: Some("vimeo".to_string()), duration: Some(30), word_count: None },
    ];
    let s = get_stats(&rows).unwrap();
    assert_eq!(s.total_transcripts, 3);
    assert_eq!(s.unique_channels, 2);
    assert_eq!(s.unique_platforms, 2);
    assert_eq!(s.total_duration, Some(90));
    assert_eq!(s.total_words, Some(15));
    let empty = get_stats(&Vec::new()).unwrap();
    assert_eq!(empty.total_transcripts, 0);
    assert_eq!(empty.total_duration, None);
}

#[test]
fn stats_sum_overflow_is_an_error() {
    let rows = vec![
        StatsRow { channel: None, platform: None, duration: Some(i64::MAX), word_count: None },
        StatsRow { channel: None, platform: None, duration: Some(1), word_count: None },
    ];
    assert!(matches!(get_stats(&rows), Err(Error::Database(_))));
}

#[test]
fn migration_plan_for_each_schema() {
    let current: Vec<String> = ["id", "video_id", "channel_handle"].iter().map(|s| s.to_string()).collect();
    let p = migration_plan(&current);
    assert!(!p.drop_chapters && !p.add_channel_handle);
    let old: Vec<String> = ["id", "video_id", "chapters", "channel_handle"].iter().map(|s| s.to_string()).collect();
    let p = migration_plan(&old);
    assert!(p.drop_chapters && p.add_channel_handle);
    let no_handle: Vec<String> = ["id", "video_id"].iter().map(|s| s.to_string()).collect();
    let p = migration_plan(&no_handle);
    assert!(!p.drop_chapters && p.add_channel_handle);
}

fn upsert(conn: &Connection, m: &TranscriptMetadata) {
    conn.execute(DELETE_SHADOW_SQL, [&m.video_id]).unwrap();
    let confidence = m.confidence.map(f64::from_bits);
    let params: [&dyn ToSql; 17] = [
        &m.video_id, &m.url, &m.title, &m.channel, &m.channel_handle, &m.channel_id,
        &m.platform, &m.duration, &m.upload_date, &m.description, &m.thumbnail,
        &m.view_count, &m.like_count, &m.path, &m.speaker_count, &m.word_count, &confidence,
    ];
    conn.execute(UPSERT_SQL, &params[..]).unwrap();
    let id = conn.last_insert_rowid();
    let description = m.description.clone().unwrap_or_default();
    let shadow: [&dyn ToSql; 5] = [&id, &m.title, &m.channel, &description, &m.transcript_text];
    conn.execute(UPSERT_SHADOW_SQL, &shadow[..]).unwrap();
}

fn row_for(video_id: &str, title: &str, text: &str) -> TranscriptMetadata {
    let parts = vec!["youtube".to_string(), "Chan".to_string()];
    let mut m = no_metadata();
    m.id = Some(video_id.to_string());
    m.title = Some(title.to_string());
    index_record(video_id, &parts, "/p", &m, &transcript(text, &["A"]))
}

fn search(conn: &Connection, query: &str, limit: i32) -> Vec<(String, String, Option<String>)> {
    let mut stmt = conn.prepare(SEARCH_SQL).unwrap();
    let q = fts_query(query);
    let rows = stmt
        .query_map((q, limit), |row| Ok((row.get(1)?, row.get(2)?, row.get(7)?)))
        .unwrap();
    rows.map(|r| r.unwrap()).collect()
}

#[test]
fn upsert_same_video_twice_keeps_one_row() {
    let conn = Connection::open_in_memory().unwrap();
    conn.execute_batch(SCHEMA_SQL).unwrap();
    upsert(&conn, &row_for("v1", "First title", "old words here"));
    upsert(&conn, &row_for("v1", "Second title", "newest transcript text"));
    let n: i64 = conn.query_row("SELECT COUNT(*) FROM transcripts", [], |r| r.get(0)).unwrap();
    assert_eq!(n, 1);
    let title: String = conn.query_row(GET_BY_ID_SQL, ["v1"], |r| r.get(3)).unwrap();
    assert_eq!(title, "Second title");
    assert_eq!(search(&conn, "newest", 20).len(), 1);
    assert_eq!(search(&conn, "old", 20).len(), 0);
    let shadows: i64 = conn.query_row("SELECT COUNT(*) FROM transcripts_fts", [], |r| r.get(0)).unwrap();
    assert_eq!(shadows, 1);
}

#[test]
fn search_hello_returns_one_highlighted_result() {
    let conn = Connection::open_in_memory().unwrap();
    conn.execute_batch(SCHEMA_SQL).unwrap();
    upsert(&conn, &row_for("v1", "Greetings", "hello world"));
    let hits = search(&conn, "hello", 20);
    assert_eq!(hits.len(), 1);
    assert_eq!(hits[0].0, "v1");
    let snippet = hits[0].2.clone().unwrap();
    assert!(snippet.contains(">>> hello <<<"), "{}", snippet);
}

fn unit(name: &str, transcript: Result<TranscriptData, Error>) -> ReindexUnit {
    ReindexUnit {
        dir_name: name.to_string(),
        rel_parts: vec!["youtube".to_string(), "Chan".to_string(), name.to_string()],
        path: format!("/r/youtube/Chan/{}", name),
        transcript,
        metadata: Ok(None),
    }
}

#[test]
fn reindex_run_indexes_every_readable_directory() {
    let units = vec![
        unit("a", Ok(transcript("one", &["A"]))),
        unit("b", Err(Error::Json("corrupt".to_string()))),
        unit("c", Ok(transcript("two words", &["A", "B"]))),
        unit("d", Ok(transcript("", &[]))),
    ];
    let report = reindex_all(units);
    assert_eq!(report.records.len(), 3);
    assert_eq!(report.failures.len(), 1);
    assert_eq!(report.failures[0].path, "/r/youtube/Chan/b");
    let ids: Vec<&str> = report.records.iter().map(|r| r.video_id.as_str()).collect();
    assert_eq!(ids, vec!["a", "c", "d"]);

    let conn = Connection::open_in_memory().unwrap();
    conn.execute_batch(SCHEMA_SQL).unwrap();
    for r in &report.records {
        upsert(&conn, r);
    }
    let n: i64 = conn.query_row("SELECT COUNT(*) FROM transcripts", [], |r| r.get(0)).unwrap();
    assert_eq!(n, 3);
}

#[test]
fn reindex_run_with_all_readable_has_no_failures() {
    let units = vec![unit("a", Ok(transcript("x", &[]))), unit("b", Ok(transcript("y", &[])))];
    let report = reindex_all(units);
    assert_eq!(report.records.len(), 2);
    assert!(report.failures.is_empty());
    assert!(reindex_all(Vec::new()).records.is_empty());
}
