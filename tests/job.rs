use yt_cli::error::Error;
use yt_cli::job::{step, JobAction, JobEvent, JobState, TranscriptResponse, POLL_INTERVAL_SECS};
use yt_cli::transcriber::Utterance;

fn response(status: &str) -> TranscriptResponse {
    TranscriptResponse {
        id: "job1".to_string(),
        status: status.to_string(),
        text: None,
        utterances: None,
        words: None,
        confidence: None,
        audio_duration: None,
        error: None,
    }
}

fn polling() -> JobState {
    JobState::Polling { job_id: "job1".to_string() }
}

#[test]
fn upload_success_creates_job_with_fixed_options() {
    let (s, a) = step(JobState::Uploading, JobEvent::Uploaded { upload_url: "https://u/1".to_string() });
    assert!(matches!(s, JobState::Created { ref upload_url } if upload_url == "https://u/1"));
    match a {
        JobAction::CreateJob { request } => {
            assert_eq!(request.audio_url, "https://u/1");
            assert!(request.speaker_labels && request.punctuate && request.format_text);
        },
        other => panic!("unexpected {:?}", other),
    }
}

#[test]
fn upload_failure_keeps_status_and_body() {
    let (s, a) = step(
        JobState::Uploading,
        JobEvent::UploadFailed { status: "401 Unauthorized".to_string(), body: "bad key".to_string() },
    );
    assert!(matches!(s, JobState::Failed));
    match a {
        JobAction::Fail { error: Error::Transcription(m) } => {
            assert_eq!(m, "Upload failed (401 Unauthorized): bad key")
        },
        other => panic!("unexpected {:?}", other),
    }
}

#[test]
fn create_failure_and_success() {
    let created = JobState::Created { upload_url: "u".to_string() };
    let (s, a) = step(
        created.clone(),
        JobEvent::CreateFailed { status: "500 Internal Server Error".to_string(), body: "".to_string() },
    );
    assert!(matches!(s, JobState::Failed));
    assert!(matches!(a, JobAction::Fail { error: Error::Transcription(ref m) } if m == "Create transcript failed (500 Internal Server Error): "));
    let (s, a) = step(created, JobEvent::JobCreated { job_id: "job1".to_string() });
    assert!(matches!(s, JobState::Polling { ref job_id } if job_id == "job1"));
    assert!(matches!(a, JobAction::Poll { ref job_id, delay_secs: 0 } if job_id == "job1"));
}

#[test]
fn processing_status_polls_again_after_interval() {
    for status in ["queued", "processing", "something-new"] {
        let (s, a) = step(polling(), JobEvent::Polled { response: response(status) });
        assert!(matches!(s, JobState::Polling { .. }));
        assert!(matches!(a, JobAction::Poll { ref job_id, delay_secs } if job_id == "job1" && delay_secs == POLL_INTERVAL_SECS));
    }
    assert_eq!(POLL_INTERVAL_SECS, 3);
}

#[test]
fn completed_status_maps_transcript_in_order() {
    let mut r = response("completed");
    r.text = Some("hi there".to_string());
    r.utterances = Some(vec![
        Utterance { speaker: "A".to_string(), text: "hi".to_string(), start: 0, end: 10, confidence: None },
        Utterance { speaker: "B".to_string(), text: "there".to_string(), start: 10, end: 20, confidence: None },
    ]);
    r.audio_duration = Some(20);
    let (s, a) = step(polling(), JobEvent::Polled { response: r });
    assert!(matches!(s, JobState::Completed));
    match a {
        JobAction::Finish { transcript } => {
            assert_eq!(transcript.id, "job1");
            assert_eq!(transcript.text, "hi there");
            assert_eq!(transcript.utterances.len(), 2);
            assert_eq!(transcript.utterances[0].speaker, "A");
            assert_eq!(transcript.utterances[1].speaker, "B");
            assert!(transcript.words.is_empty());
            assert_eq!(transcript.audio_duration, Some(20));
        },
        other => panic!("unexpected {:?}", other),
    }
}

#[test]
fn completed_without_fields_defaults_to_empty() {
    let (_, a) = step(polling(), JobEvent::Polled { response: response("completed") });
    match a {
        JobAction::Finish { transcript } => {
            assert_eq!(transcript.text, "");
            assert!(transcript.utterances.is_empty());
        },
        other => panic!("unexpected {:?}", other),
    }
}

#[test]
fn error_status_fails_with_provider_message_or_fallback() {
    let mut r = response("error");
    r.error = Some("audio too short".to_string());
    let (s, a) = step(polling(), JobEvent::Polled { response: r });
    assert!(matches!(s, JobState::Failed));
    assert!(matches!(a, JobAction::Fail { error: Error::Transcription(ref m) } if m == "audio too short"));
    let (_, a) = step(polling(), JobEvent::Polled { response: response("error") });
    assert!(matches!(a, JobAction::Fail { error: Error::Transcription(ref m) } if m == "Unknown error"));
}

#[test]
fn poll_failure_is_fatal() {
    let (s, a) = step(polling(), JobEvent::PollFailed { status: "404 Not Found".to_string(), body: "no".to_string() });
    assert!(matches!(s, JobState::Failed));
    assert!(matches!(a, JobAction::Fail { error: Error::Transcription(ref m) } if m == "Poll failed (404 Not Found): no"));
}

#[test]
fn events_of_another_stage_change_nothing() {
    let (s, a) = step(JobState::Uploading, JobEvent::JobCreated { job_id: "x".to_string() });
    assert!(matches!(s, JobState::Uploading));
    assert!(matches!(a, JobAction::Ignore));
    let (s, a) = step(JobState::Completed, JobEvent::Polled { response: response("completed") });
    assert!(matches!(s, JobState::Completed));
    assert!(matches!(a, JobAction::Ignore));
}

#[test]
fn error_messages() {
    assert_eq!(Error::ApiKeyMissing.message(), "API key not set. Run `yt-cli init` to configure.");
    assert_eq!(Error::Download("boom".to_string()).message(), "Download failed: boom");
    assert_eq!(Error::FileNotFound("x".to_string()).message(), "File not found: x");
    assert_eq!(Error::Config("c".to_string()).message(), "Configuration error: c");
    assert_eq!(Error::Transcription("t".to_string()).message(), "Transcription failed: t");
    assert_eq!(Error::Database("d".to_string()).message(), "Database error: d");
    assert_eq!(Error::Io("i".to_string()).message(), "IO error: i");
    assert_eq!(Error::Json("j".to_string()).message(), "JSON error: j");
    assert_eq!(Error::Http("h".to_string()).message(), "HTTP error: h");
}
