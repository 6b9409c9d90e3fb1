//! The error kinds of the library.
use vstd::prelude::*;
use crate::text::push_str;

verus! {

/// What went wrong. Failures of outside systems (the index store, the file
/// system, JSON decoding, HTTP) carry their message.
#[derive(Debug, Clone)]
pub enum Error {
    Config(String),
    ApiKeyMissing,
    Download(String),
    Transcription(String),
    FileNotFound(String),
    Database(String),
    Io(String),
    Json(String),
    Http(String),
}

/// The one-line message shown for each kind of error.
pub open spec fn message_spec(e: Error) -> Seq<char> {
    match e {
        Error::Config(m) => "Configuration error: "@ + m@,
        Error::ApiKeyMissing => "API key not set. Run `yt-cli init` to configure."@,
        Error::Download(m) => "Download failed: "@ + m@,
        Error::Transcription(m) => "Transcription failed: "@ + m@,
        Error::FileNotFound(m) => "File not found: "@ + m@,
        Error::Database(m) => "Database error: "@ + m@,
        Error::Io(m) => "IO error: "@ + m@,
        Error::Json(m) => "JSON error: "@ + m@,
        Error::Http(m) => "HTTP error: "@ + m@,
    }
}

fn with_prefix(prefix: &str, detail: &String) -> (r: String)
    ensures
        r@ == prefix@ + detail@,
{
    let mut r = String::from_str(prefix);
    push_str(&mut r, detail.as_str());
    r
}

impl Error {
    /// The one-line message for this error.
    pub fn message(&self) -> (r: String)
        ensures
            r@ == message_spec(*self),
    {
        match self {
            Error::Config(m) => with_prefix("Configuration error: ", m),
            Error::ApiKeyMissing => String::from_str(
                "API key not set. Run `yt-cli init` to configure.",
            ),
            Error::Download(m) => with_prefix("Download failed: ", m),
            Error::Transcription(m) => with_prefix("Transcription failed: ", m),
            Error::FileNotFound(m) => with_prefix("File not found: ", m),
            Error::Database(m) => with_prefix("Database error: ", m),
            Error::Io(m) => with_prefix("IO error: ", m),
            Error::Json(m) => with_prefix("JSON error: ", m),
            Error::Http(m) => with_prefix("HTTP error: ", m),
        }
    }
}

} // verus!
