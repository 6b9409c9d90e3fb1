use yt_cli::transcriber::{
    format_timestamp, format_transcript, format_transcript_markdown, paragraphs, TranscriptData,
    Utterance,
};

fn utt(speaker: &str, text: &str, start: i64, end: i64) -> Utterance {
    Utterance {
        speaker: speaker.to_string(),
        text: text.to_string(),
        start,
        end,
        confidence: None,
    }
}

fn data(text: &str, utterances: Vec<Utterance>) -> TranscriptData {
    TranscriptData {
        id: "t1".to_string(),
        text: text.to_string(),
        utterances,
        words: Vec::new(),
        confidence: None,
        audio_duration: None,
    }
}

fn sample() -> TranscriptData {
    data(
        "hi there hello",
        vec![
            utt("A", "hi", 0, 1000),
            utt("A", "there", 1000, 2000),
            utt("B", "hello", 2000, 3000),
        ],
    )
}

#[test]
fn plain_merges_same_speaker_into_two_paragraphs() {
    let out = format_transcript(&sample());
    assert_eq!(out, "Speaker A: hi there\n\nSpeaker B: hello");
    assert_eq!(out.split("\n\n").count(), 2);
}

#[test]
fn markdown_merges_same_speaker_into_two_paragraphs() {
    let out = format_transcript_markdown(&sample());
    assert_eq!(
        out,
        "## Transcript\n\n**Speaker A** [00:00]: hi there\n\n**Speaker B** [00:02]: hello"
    );
}

#[test]
fn paragraphs_keep_first_start_of_each_batch() {
    let ps = paragraphs(&sample().utterances);
    assert_eq!(ps.len(), 2);
    assert_eq!(ps[0].speaker, "A");
    assert_eq!(ps[0].text, "hi there");
    assert_eq!(ps[0].start, 0);
    assert_eq!(ps[1].speaker, "B");
    assert_eq!(ps[1].start, 2000);
}

#[test]
fn speaker_returning_opens_new_paragraph() {
    let d = data(
        "",
        vec![utt("A", "one", 0, 1), utt("B", "two", 5000, 6000), utt("A", "three", 61000, 62000)],
    );
    assert_eq!(
        format_transcript(&d),
        "Speaker A: one\n\nSpeaker B: two\n\nSpeaker A: three"
    );
    assert_eq!(
        format_transcript_markdown(&d),
        "## Transcript\n\n**Speaker A** [00:00]: one\n\n**Speaker B** [00:05]: two\n\n**Speaker A** [01:01]: three"
    );
}

#[test]
fn no_utterances_falls_back_to_flat_text() {
    let d = data("just the text", Vec::new());
    assert_eq!(format_transcript(&d), "just the text");
    assert_eq!(format_transcript_markdown(&d), "## Transcript\n\njust the text");
}

#[test]
fn formatting_is_deterministic() {
    let d = sample();
    assert_eq!(format_transcript(&d), format_transcript(&d));
    assert_eq!(format_transcript_markdown(&d), format_transcript_markdown(&d));
}

#[test]
fn timestamp_minutes_and_seconds() {
    assert_eq!(format_timestamp(0), "00:00");
    assert_eq!(format_timestamp(999), "00:00");
    assert_eq!(format_timestamp(61_000), "01:01");
    assert_eq!(format_timestamp(3_599_999), "59:59");
}

#[test]
fn timestamp_hours_from_one_hour() {
    assert_eq!(format_timestamp(3_600_000), "01:00:00");
    assert_eq!(format_timestamp(3_725_000), "01:02:05");
    assert_eq!(format_timestamp(360_000_000), "100:00:00");
}

#[test]
fn timestamp_negative_offset() {
    assert_eq!(format_timestamp(-61_000), format!("{:02}:{:02}", -1, -1));
    assert_eq!(format_timestamp(-500), "00:00");
}
