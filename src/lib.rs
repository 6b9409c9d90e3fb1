//! Transcript acquisition and indexing: storage paths, transcript
//! formatting, the transcription job state machine, and the index records
//! that mirror the transcript files.
pub mod config;
pub mod display;
pub mod downloader;
pub mod error;
pub mod index;
pub mod job;
pub mod schema;
pub mod storage;
pub mod text;
pub mod transcriber;
