//! The statements of the embedded index: its schema, its migrations, and
//! the queries that the index operations run.
use vstd::prelude::*;

verus! {

/// The transcripts table and its full-text shadow, created when absent.
pub const SCHEMA_SQL: &'static str = "CREATE TABLE IF NOT EXISTS transcripts (
    id INTEGER PRIMARY KEY AUTOINCREMENT,
    video_id TEXT UNIQUE,
    url TEXT,
    title TEXT,
    channel TEXT,
    channel_handle TEXT,
    channel_id TEXT,
    platform TEXT,
    duration INTEGER,
    upload_date TEXT,
    description TEXT,
    thumbnail TEXT,
    view_count INTEGER,
    like_count INTEGER,
    transcribed_at TIMESTAMP DEFAULT CURRENT_TIMESTAMP,
    path TEXT,
    speaker_count INTEGER,
    word_count INTEGER,
    confidence REAL
);
CREATE VIRTUAL TABLE IF NOT EXISTS transcripts_fts USING fts5(
    title,
    channel,
    description,
    transcript_text
);";

/// The column names of the transcripts table.
pub const COLUMNS_SQL: &'static str = "SELECT name FROM pragma_table_info('transcripts')";

/// Rebuilds the table without the old `chapters` column, keeping every row,
/// and recreates the full-text shadow.
pub const DROP_CHAPTERS_SQL: &'static str = "CREATE TABLE transcripts_new (
    id INTEGER PRIMARY KEY AUTOINCREMENT,
    video_id TEXT UNIQUE,
    url TEXT,
    title TEXT,
    channel TEXT,
    channel_id TEXT,
    platform TEXT,
    duration INTEGER,
    upload_date TEXT,
    description TEXT,
    thumbnail TEXT,
    view_count INTEGER,
    like_count INTEGER,
    transcribed_at TIMESTAMP DEFAULT CURRENT_TIMESTAMP,
    path TEXT,
    speaker_count INTEGER,
    word_count INTEGER,
    confidence REAL
);
INSERT INTO transcripts_new (id, video_id, url, title, channel, channel_id, platform,
    duration, upload_date, description, thumbnail, view_count, like_count,
    transcribed_at, path, speaker_count, word_count, confidence)
SELECT id, video_id, url, title, channel, channel_id, platform,
    duration, upload_date, description, thumbnail, view_count, like_count,
    transcribed_at, path, speaker_count, word_count, confidence
FROM transcripts;
DROP TABLE transcripts;
ALTER TABLE transcripts_new RENAME TO transcripts;
DROP TABLE IF EXISTS transcripts_fts;
CREATE VIRTUAL TABLE transcripts_fts USING fts5(
    title,
    channel,
    description,
    transcript_text
);";

/// Adds the `channel_handle` column.
pub const ADD_CHANNEL_HANDLE_SQL: &'static str = "ALTER TABLE transcripts ADD COLUMN channel_handle TEXT";

/// Removes the full-text row of the transcript with video id `?1`, before
/// that transcript is replaced.
pub const DELETE_SHADOW_SQL: &'static str = "DELETE FROM transcripts_fts WHERE rowid IN (SELECT id FROM transcripts WHERE video_id = ?1)";

/// Inserts a transcript, replacing the row with the same video id.
pub const UPSERT_SQL: &'static str = "INSERT OR REPLACE INTO transcripts
    (video_id, url, title, channel, channel_handle, channel_id, platform, duration, upload_date,
     description, thumbnail, view_count, like_count, path, speaker_count, word_count, confidence)
    VALUES (?1, ?2, ?3, ?4, ?5, ?6, ?7, ?8, ?9, ?10, ?11, ?12, ?13, ?14, ?15, ?16, ?17)";

/// Writes the full-text row of the transcript whose row id is `?1`.
pub const UPSERT_SHADOW_SQL: &'static str = "INSERT OR REPLACE INTO transcripts_fts(rowid, title, channel, description, transcript_text)
    VALUES (?1, ?2, ?3, ?4, ?5)";

/// Ranked free-text search for the quoted query `?1`, at most `?2` hits,
/// each with a snippet of the best-matching column.
pub const SEARCH_SQL: &'static str = "SELECT t.id, t.video_id, t.title, t.channel, t.platform, t.duration, t.path,
    snippet(transcripts_fts, -1, '>>> ', ' <<<', '...', 32) AS snippet
FROM transcripts_fts
JOIN transcripts t ON transcripts_fts.rowid = t.id
WHERE transcripts_fts MATCH ?1
ORDER BY rank
LIMIT ?2";

/// Every row, newest first.
pub const LIST_SQL: &'static str = "SELECT id, video_id, url, title, channel, channel_handle, platform, duration, upload_date, path, speaker_count, word_count FROM transcripts ORDER BY transcribed_at DESC, id DESC";

/// The row with video id `?1`.
pub const GET_BY_ID_SQL: &'static str = "SELECT id, video_id, url, title, channel, channel_handle, platform, duration, upload_date, path, speaker_count, word_count FROM transcripts WHERE video_id = ?1";

/// Removes the row with video id `?1`.
pub const DELETE_SQL: &'static str = "DELETE FROM transcripts WHERE video_id = ?1";

/// The columns that the totals read, for every row.
pub const STATS_ROWS_SQL: &'static str = "SELECT channel, platform, duration, word_count FROM transcripts";

} // verus!
