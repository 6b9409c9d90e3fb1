//! The transcription job: upload, create, poll, until the remote job
//! completes or fails. The caller performs each request and hands the
//! answer back as an event; `step` decides what comes next.
use vstd::prelude::*;
use crate::error::Error;
use crate::text::{push_str, str_eq};
use crate::transcriber::{TranscriptData, Utterance, Word};

verus! {

/// Seconds between two status requests of a running job.
pub const POLL_INTERVAL_SECS: u64 = 3;

/// The body of the job creation request.
#[derive(Debug, Clone)]
pub struct TranscriptRequest {
    pub audio_url: String,
    pub speaker_labels: bool,
    pub punctuate: bool,
    pub format_text: bool,
}

/// The job status as the service reports it.
#[derive(Debug, Clone)]
pub struct TranscriptResponse {
    pub id: String,
    pub status: String,
    pub text: Option<String>,
    pub utterances: Option<Vec<Utterance>>,
    pub words: Option<Vec<Word>>,
    pub confidence: Option<u64>,
    pub audio_duration: Option<i64>,
    pub error: Option<String>,
}

/// Where a job stands. It only moves forward:
/// `Uploading → Created → Polling → Completed | Failed`.
#[derive(Debug, Clone)]
pub enum JobState {
    Uploading,
    Created { upload_url: String },
    Polling { job_id: String },
    Completed,
    Failed,
}

/// The answer to the request that the last action asked for.
#[derive(Debug, Clone)]
pub enum JobEvent {
    UploadFailed { status: String, body: String },
    Uploaded { upload_url: String },
    CreateFailed { status: String, body: String },
    JobCreated { job_id: String },
    PollFailed { status: String, body: String },
    Polled { response: TranscriptResponse },
}

/// What the caller does next.
#[derive(Debug, Clone)]
pub enum JobAction {
    /// Submit the job with this request.
    CreateJob { request: TranscriptRequest },
    /// Ask for the job's status after waiting `delay_secs` seconds.
    Poll { job_id: String, delay_secs: u64 },
    /// The job is done.
    Finish { transcript: TranscriptData },
    /// The job failed.
    Fail { error: Error },
    /// The event does not belong to the current stage; nothing changes.
    Ignore,
}

/// `<what> failed (<status>): <body>`.
pub open spec fn failure_text(what: Seq<char>, status: Seq<char>, body: Seq<char>) -> Seq<char> {
    what + " failed ("@ + status + "): "@ + body
}

pub open spec fn is_transcription_error(e: Error, msg: Seq<char>) -> bool {
    e is Transcription && e->Transcription_0@ == msg
}

/// The transcript that a completed job response stands for: missing text
/// and lists become empty, order is kept.
pub open spec fn completed_spec(resp: TranscriptResponse, t: TranscriptData) -> bool {
    &&& t.id@ == resp.id@
    &&& t.text@ == match resp.text {
        Some(s) => s@,
        None => Seq::<char>::empty(),
    }
    &&& t.utterances@ == match resp.utterances {
        Some(v) => v@,
        None => Seq::<Utterance>::empty(),
    }
    &&& t.words@ == match resp.words {
        Some(v) => v@,
        None => Seq::<Word>::empty(),
    }
    &&& t.confidence == resp.confidence
    &&& t.audio_duration == resp.audio_duration
}

/// The message of a job that the service reports as failed.
pub open spec fn job_error_text(resp: TranscriptResponse) -> Seq<char> {
    match resp.error {
        Some(e) => e@,
        None => "Unknown error"@,
    }
}

fn failure_message(what: &str, status: &String, body: &String) -> (r: String)
    ensures
        r@ == failure_text(what@, status@, body@),
{
    let mut r = String::from_str(what);
    push_str(&mut r, " failed (");
    push_str(&mut r, status.as_str());
    push_str(&mut r, "): ");
    push_str(&mut r, body.as_str());
    r
}

/// The job creation request for an uploaded file: speaker labels,
/// punctuation and text formatting on.
pub fn create_request(upload_url: String) -> (r: TranscriptRequest)
    ensures
        r.audio_url@ == upload_url@,
        r.speaker_labels && r.punctuate && r.format_text,
{
    TranscriptRequest { audio_url: upload_url, speaker_labels: true, punctuate: true, format_text: true }
}

/// The transcript of a completed job response.
pub fn completed_transcript(resp: TranscriptResponse) -> (t: TranscriptData)
    ensures
        completed_spec(resp, t),
{
    let text = match resp.text {
        Some(s) => s,
        None => String::new(),
    };
    let utterances = match resp.utterances {
        Some(v) => v,
        None => Vec::new(),
    };
    let words = match resp.words {
        Some(v) => v,
        None => Vec::new(),
    };
    TranscriptData {
        id: resp.id,
        text,
        utterances,
        words,
        confidence: resp.confidence,
        audio_duration: resp.audio_duration,
    }
}

/// What one step does: from the current stage and the answer just received,
/// the next stage and what to do.
pub open spec fn step_spec(state: JobState, event: JobEvent, r: (JobState, JobAction)) -> bool {
    match (state, event) {
        (JobState::Uploading, JobEvent::UploadFailed { status, body }) => r.0 is Failed
            && r.1 is Fail && is_transcription_error(
            r.1->Fail_error,
            failure_text("Upload"@, status@, body@),
        ),
        (JobState::Uploading, JobEvent::Uploaded { upload_url }) => r.0 is Created
            && r.0->upload_url@ == upload_url@ && r.1 is CreateJob
            && r.1->request.audio_url@ == upload_url@ && r.1->request.speaker_labels
            && r.1->request.punctuate && r.1->request.format_text,
        (JobState::Created { .. }, JobEvent::CreateFailed { status, body }) => r.0 is Failed
            && r.1 is Fail && is_transcription_error(
            r.1->Fail_error,
            failure_text("Create transcript"@, status@, body@),
        ),
        (JobState::Created { .. }, JobEvent::JobCreated { job_id }) => r.0 is Polling
            && r.0->job_id@ == job_id@ && r.1 is Poll && r.1->Poll_job_id@ == job_id@
            && r.1->delay_secs == 0,
        (JobState::Polling { .. }, JobEvent::PollFailed { status, body }) => r.0 is Failed
            && r.1 is Fail && is_transcription_error(
            r.1->Fail_error,
            failure_text("Poll"@, status@, body@),
        ),
        (JobState::Polling { job_id }, JobEvent::Polled { response }) => if response.status@
            == "completed"@ {
            r.0 is Completed && r.1 is Finish && completed_spec(response, r.1->transcript)
        } else if response.status@ == "error"@ {
            r.0 is Failed && r.1 is Fail && is_transcription_error(
                r.1->Fail_error,
                job_error_text(response),
            )
        } else {
            r.0 is Polling && r.0->job_id@ == job_id@ && r.1 is Poll && r.1->Poll_job_id@
                == job_id@ && r.1->delay_secs == POLL_INTERVAL_SECS
        },
        (s, _) => r.0 == s && r.1 is Ignore,
    }
}

/// The stages in the order a job passes through them.
pub open spec fn stage_rank(s: JobState) -> int {
    match s {
        JobState::Uploading => 0,
        JobState::Created { .. } => 1,
        JobState::Polling { .. } => 2,
        JobState::Completed => 3,
        JobState::Failed => 3,
    }
}

/// A job never goes back to an earlier stage, and a finished job stays
/// as it is whatever answer comes.
pub proof fn lemma_job_moves_forward(state: JobState, event: JobEvent, r: (JobState, JobAction))
    requires
        step_spec(state, event, r),
    ensures
        stage_rank(r.0) >= stage_rank(state),
        (state is Completed || state is Failed) ==> r.0 == state && r.1 is Ignore,
{
}

/// One step of the job: from the current stage and the answer just
/// received, the next stage and what to do.
pub fn step(state: JobState, event: JobEvent) -> (r: (JobState, JobAction))
    ensures
        step_spec(state, event, r),
{
    match (state, event) {
        (JobState::Uploading, JobEvent::UploadFailed { status, body }) => {
            let m = failure_message("Upload", &status, &body);
            (JobState::Failed, JobAction::Fail { error: Error::Transcription(m) })
        },
        (JobState::Uploading, JobEvent::Uploaded { upload_url }) => {
            let request = create_request(upload_url.clone());
            (JobState::Created { upload_url }, JobAction::CreateJob { request })
        },
        (JobState::Created { .. }, JobEvent::CreateFailed { status, body }) => {
            let m = failure_message("Create transcript", &status, &body);
            (JobState::Failed, JobAction::Fail { error: Error::Transcription(m) })
        },
        (JobState::Created { .. }, JobEvent::JobCreated { job_id }) => {
            let id = job_id.clone();
            (JobState::Polling { job_id }, JobAction::Poll { job_id: id, delay_secs: 0 })
        },
        (JobState::Polling { .. }, JobEvent::PollFailed { status, body }) => {
            let m = failure_message("Poll", &status, &body);
            (JobState::Failed, JobAction::Fail { error: Error::Transcription(m) })
        },
        (JobState::Polling { job_id }, JobEvent::Polled { response }) => {
            if str_eq(response.status.as_str(), "completed") {
                let transcript = completed_transcript(response);
                (JobState::Completed, JobAction::Finish { transcript })
            } else if str_eq(response.status.as_str(), "error") {
                let m = match response.error {
                    Some(e) => e,
                    None => String::from_str("Unknown error"),
                };
                (JobState::Failed, JobAction::Fail { error: Error::Transcription(m) })
            } else {
                let id = job_id.clone();
                (
                    JobState::Polling { job_id },
                    JobAction::Poll { job_id: id, delay_secs: POLL_INTERVAL_SECS },
                )
            }
        },
        (s, _) => (s, JobAction::Ignore),
    }
}

} // verus!
