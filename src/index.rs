//! The search index's records: what a transcript directory is indexed as,
//! how a free-text query is quoted, and how listings are filtered.
use vstd::prelude::*;
use crate::text::{
    chars_of, contains_seq, is_white_space, is_white_space_char, lower_of, push_char, to_lower,
};
use crate::transcriber::{TranscriptData, Utterance};

verus! {

/// The row of a transcript as it is written to the index.
#[derive(Debug, Clone)]
pub struct TranscriptMetadata {
    pub video_id: String,
    pub url: String,
    pub title: String,
    pub channel: String,
    pub channel_handle: Option<String>,
    pub channel_id: Option<String>,
    pub platform: String,
    pub duration: Option<i64>,
    pub upload_date: Option<String>,
    pub description: Option<String>,
    pub thumbnail: Option<String>,
    pub view_count: Option<i64>,
    pub like_count: Option<i64>,
    pub path: String,
    pub speaker_count: i32,
    pub word_count: i32,
    /// IEEE-754 bit pattern of the transcription confidence.
    pub confidence: Option<u64>,
    pub transcript_text: String,
}

/// One hit of a free-text search.
#[derive(Debug, Clone)]
pub struct SearchResult {
    pub id: i64,
    pub video_id: String,
    pub title: String,
    pub channel: String,
    pub platform: String,
    pub duration: Option<i64>,
    pub path: String,
    pub snippet: Option<String>,
}

/// A row of the index as listings return it.
#[derive(Debug, Clone)]
pub struct TranscriptRecord {
    pub id: i64,
    pub video_id: String,
    pub url: Option<String>,
    pub title: String,
    pub channel: String,
    pub channel_handle: Option<String>,
    pub platform: String,
    pub duration: Option<i64>,
    pub upload_date: Option<String>,
    pub path: String,
    pub speaker_count: Option<i32>,
    pub word_count: Option<i32>,
}

/// Totals over the whole index.
#[derive(Debug, Clone)]
pub struct Stats {
    pub total_transcripts: i64,
    pub unique_channels: i64,
    pub unique_platforms: i64,
    pub total_duration: Option<i64>,
    pub total_words: Option<i64>,
}

/// The fields of a stored `metadata.json` that indexing reads; each is
/// absent when the file lacks it or holds another JSON type there.
#[derive(Debug, Clone)]
pub struct StoredMetadata {
    pub id: Option<String>,
    pub url: Option<String>,
    pub title: Option<String>,
    pub channel: Option<String>,
    pub uploader_id: Option<String>,
    pub duration: Option<i64>,
    pub upload_date: Option<String>,
}

/// The number of whitespace-separated words.
pub open spec fn word_count_spec(s: Seq<char>) -> nat
    decreases s.len(),
{
    if s.len() == 0 {
        0
    } else {
        let starts = !is_white_space(s.last()) && (s.len() == 1 || is_white_space(
            s[s.len() - 2],
        ));
        word_count_spec(s.drop_last()) + if starts {
            1nat
        } else {
            0nat
        }
    }
}

pub open spec fn speakers(u: Seq<Utterance>) -> Set<Seq<char>> {
    u.map_values(|x: Utterance| x.speaker@).to_set()
}

/// A count as an `i32`, saturating at `i32::MAX`.
pub open spec fn clamp_i32(n: nat) -> i32 {
    if n > i32::MAX as nat {
        i32::MAX
    } else {
        n as i32
    }
}

pub fn clamp_count(n: usize) -> (r: i32)
    ensures
        r == clamp_i32(n as nat),
{
    if n > i32::MAX as usize {
        i32::MAX
    } else {
        n as i32
    }
}

/// Count the whitespace-separated words of a text.
pub fn word_count(text: &str) -> (r: usize)
    ensures
        r == word_count_spec(text@),
{
    let v = chars_of(text);
    let mut n: usize = 0;
    let mut i: usize = 0;
    while i < v.len()
        invariant
            i <= v.len(),
            n == word_count_spec(v@.take(i as int)),
            n <= i,
        decreases v.len() - i,
    {
        assert(v@.take(i + 1).drop_last() =~= v@.take(i as int));
        let ws = is_white_space_char(v[i]);
        if !ws && (i == 0 || is_white_space_char(v[i - 1])) {
            n += 1;
        }
        i += 1;
    }
    assert(v@.take(v.len() as int) =~= v@);
    n
}

/// Count the distinct speaker tokens among the utterances.
pub fn speaker_count(utterances: &Vec<Utterance>) -> (r: usize)
    ensures
        r == speakers(utterances@).len(),
{
    let mut seen: Vec<String> = Vec::new();
    let mut i: usize = 0;
    assert(utterances@.take(0).map_values(|x: Utterance| x.speaker@).to_set() =~= Set::empty());
    assert(seen@.map_values(|s: String| s@).to_set() =~= Set::empty());
    while i < utterances.len()
        invariant
            i <= utterances.len(),
            seen@.map_values(|s: String| s@).no_duplicates(),
            seen@.map_values(|s: String| s@).to_set() == utterances@.take(i as int).map_values(
                |x: Utterance| x.speaker@,
            ).to_set(),
        decreases utterances.len() - i,
    {
        let sp = &utterances[i].speaker;
        let ghost names = seen@.map_values(|s: String| s@);
        let mut found = false;
        let mut j: usize = 0;
        while j < seen.len()
            invariant
                j <= seen.len(),
                names == seen@.map_values(|s: String| s@),
                found <==> exists|k: int| 0 <= k < j && names[k] == sp@,
            decreases seen.len() - j,
        {
            assert(names[j as int] == seen@[j as int]@);
            if seen[j] == *sp {
                found = true;
            }
            j += 1;
        }
        let ghost prefix = utterances@.take(i as int).map_values(|x: Utterance| x.speaker@);
        let ghost next = utterances@.take(i + 1).map_values(|x: Utterance| x.speaker@);
        assert(next =~= prefix.push(sp@));
        if !found {
            seen.push(sp.clone());
            assert(seen@.map_values(|s: String| s@) =~= names.push(sp@));
            assert(!names.contains(sp@));
            assert forall|x: Seq<char>| #[trigger] names.push(sp@).contains(x) <==> (names.contains(
                x,
            ) || x == sp@) by {
                if names.push(sp@).contains(x) {
                    let k = choose|k: int| 0 <= k < names.len() + 1 && names.push(sp@)[k] == x;
                    if k < names.len() {
                        assert(names[k] == x);
                    }
                }
                if names.contains(x) {
                    let k = choose|k: int| 0 <= k < names.len() && names[k] == x;
                    assert(names.push(sp@)[k] == x);
                }
                if x == sp@ {
                    assert(names.push(sp@)[names.len() as int] == x);
                }
            }
        } else {
            assert(names.contains(sp@));
        }
        let ghost now = seen@.map_values(|s: String| s@);
        assert(forall|x: Seq<char>| #[trigger] now.contains(x) <==> (names.contains(x) || x == sp@));
        assert forall|x: Seq<char>| #[trigger] next.contains(x) <==> (prefix.contains(x) || x
            == sp@) by {
            if next.contains(x) {
                let k = choose|k: int| 0 <= k < next.len() && next[k] == x;
                if k < prefix.len() {
                    assert(prefix[k] == x);
                }
            }
            if prefix.contains(x) {
                let k = choose|k: int| 0 <= k < prefix.len() && prefix[k] == x;
                assert(next[k] == x);
            }
            if x == sp@ {
                assert(next[prefix.len() as int] == x);
            }
        }
        assert(names.to_set() == prefix.to_set());
        assert forall|x: Seq<char>| #[trigger] names.contains(x) <==> prefix.contains(x) by {
            assert(names.to_set().contains(x) == names.contains(x));
            assert(prefix.to_set().contains(x) == prefix.contains(x));
        }
        assert(now.to_set() =~= next.to_set());
        i += 1;
    }
    assert(utterances@.take(utterances.len() as int) =~= utterances@);
    proof {
        seen@.map_values(|s: String| s@).unique_seq_to_set();
    }
    seen.len()
}

pub open spec fn opt_str(o: Option<String>) -> Option<Seq<char>> {
    match o {
        Some(s) => Some(s@),
        None => None,
    }
}

pub open spec fn opt_view(o: Option<&str>) -> Option<Seq<char>> {
    match o {
        Some(s) => Some(s@),
        None => None,
    }
}

pub open spec fn or_else(o: Option<String>, d: Seq<char>) -> Seq<char> {
    match o {
        Some(s) => s@,
        None => d,
    }
}

/// The platform of a transcript directory: the first segment of its path
/// below the transcripts root, or `unknown`.
pub open spec fn platform_from_parts(parts: Seq<String>) -> Seq<char> {
    if parts.len() > 0 {
        parts[0]@
    } else {
        "unknown"@
    }
}

/// The channel of a transcript directory: the second segment of its path
/// below the transcripts root, or `Unknown`.
pub open spec fn channel_from_parts(parts: Seq<String>) -> Seq<char> {
    if parts.len() > 1 {
        parts[1]@
    } else {
        "Unknown"@
    }
}

/// The index row for a transcript directory, from its name, its path
/// segments below the transcripts root, its stored metadata and its
/// transcript.
pub open spec fn index_record_spec(
    dir_name: Seq<char>,
    parts: Seq<String>,
    path: Seq<char>,
    meta: StoredMetadata,
    data: TranscriptData,
    r: TranscriptMetadata,
) -> bool {
    &&& r.video_id@ == or_else(meta.id, dir_name)
    &&& r.url@ == or_else(meta.url, Seq::empty())
    &&& r.title@ == or_else(meta.title, dir_name)
    &&& r.channel@ == or_else(meta.channel, channel_from_parts(parts))
    &&& r.channel_handle is None
    &&& r.channel_id is None
    &&& r.platform@ == platform_from_parts(parts)
    &&& r.duration == meta.duration
    &&& opt_str(r.upload_date) == opt_str(meta.upload_date)
    &&& r.description is None
    &&& r.thumbnail is None
    &&& r.view_count is None
    &&& r.like_count is None
    &&& r.path@ == path
    &&& r.speaker_count == clamp_i32(speakers(data.utterances@).len())
    &&& r.word_count == clamp_i32(word_count_spec(data.text@))
    &&& r.confidence == data.confidence
    &&& r.transcript_text@ == data.text@
}

pub(crate) fn clone_opt(o: &Option<String>) -> (r: Option<String>)
    ensures
        opt_str(r) == opt_str(*o),
{
    match o {
        Some(s) => Some(s.clone()),
        None => None,
    }
}

fn clone_or(o: &Option<String>, d: &str) -> (r: String)
    ensures
        r@ == or_else(*o, d@),
{
    match o {
        Some(s) => s.clone(),
        None => String::from_str(d),
    }
}

/// What a transcript directory is indexed as: the stored metadata where it
/// has a field, else what the directory's name and position give.
pub fn index_record(
    dir_name: &str,
    rel_parts: &Vec<String>,
    path: &str,
    meta: &StoredMetadata,
    data: &TranscriptData,
) -> (r: TranscriptMetadata)
    ensures
        index_record_spec(dir_name@, rel_parts@, path@, *meta, *data, r),
{
    let platform = if rel_parts.len() > 0 {
        rel_parts[0].clone()
    } else {
        String::from_str("unknown")
    };
    let channel = match &meta.channel {
        Some(c) => c.clone(),
        None => if rel_parts.len() > 1 {
            rel_parts[1].clone()
        } else {
            String::from_str("Unknown")
        },
    };
    proof {
        reveal_strlit("");
    }
    let speakers = speaker_count(&data.utterances);
    let words = word_count(data.text.as_str());
    let video_id = clone_or(&meta.id, dir_name);
    let url = clone_or(&meta.url, "");
    let title = clone_or(&meta.title, dir_name);
    assert(platform@ == platform_from_parts(rel_parts@));
    assert(channel@ == or_else(meta.channel, channel_from_parts(rel_parts@)));
    assert(url@ == or_else(meta.url, Seq::empty()));
    TranscriptMetadata {
        video_id,
        url,
        title,
        channel,
        channel_handle: None,
        channel_id: None,
        platform,
        duration: meta.duration,
        upload_date: clone_opt(&meta.upload_date),
        description: None,
        thumbnail: None,
        view_count: None,
        like_count: None,
        path: String::from_str(path),
        speaker_count: clamp_count(speakers),
        word_count: clamp_count(words),
        confidence: data.confidence,
        transcript_text: data.text.clone(),
    }
}

/// The query with each `"` doubled.
pub open spec fn double_quotes(q: Seq<char>) -> Seq<char>
    decreases q.len(),
{
    if q.len() == 0 {
        q
    } else {
        double_quotes(q.drop_last()) + if q.last() == '"' {
            seq!['"', '"']
        } else {
            seq![q.last()]
        }
    }
}

/// A free-text query as one quoted phrase of the full-text engine.
pub open spec fn fts_query_spec(q: Seq<char>) -> Seq<char> {
    seq!['"'] + double_quotes(q) + seq!['"']
}

/// Quote a free-text query as one phrase, so that the engine's operators in
/// it are taken literally.
pub fn fts_query(query: &str) -> (r: String)
    ensures
        r@ == fts_query_spec(query@),
{
    let v = chars_of(query);
    let mut r = String::new();
    push_char(&mut r, '"');
    let mut i: usize = 0;
    while i < v.len()
        invariant
            i <= v.len(),
            r@ == seq!['"'] + double_quotes(v@.take(i as int)),
        decreases v.len() - i,
    {
        assert(v@.take(i + 1).drop_last() =~= v@.take(i as int));
        let ghost before = r@;
        push_char(&mut r, v[i]);
        if v[i] == '"' {
            push_char(&mut r, '"');
        }
        assert(r@ =~= seq!['"'] + double_quotes(v@.take(i + 1)));
        i += 1;
    }
    assert(v@.take(v.len() as int) =~= v@);
    push_char(&mut r, '"');
    assert(r@ =~= fts_query_spec(query@));
    r
}

/// `value` passes a case-insensitive substring filter, or there is none.
pub open spec fn substring_filter(value: Seq<char>, filter: Option<Seq<char>>) -> bool {
    match filter {
        Some(f) => contains_seq(lower_of(value), lower_of(f)),
        None => true,
    }
}

/// An optional `value` passes a case-insensitive substring filter: a filter
/// never passes an absent value.
pub open spec fn optional_substring_filter(
    value: Option<Seq<char>>,
    filter: Option<Seq<char>>,
) -> bool {
    match filter {
        Some(f) => match value {
            Some(v) => contains_seq(lower_of(v), lower_of(f)),
            None => false,
        },
        None => true,
    }
}

/// A listing's filters: the platform exactly, channel and handle as
/// case-insensitive substrings.
pub open spec fn record_matches(
    r: TranscriptRecord,
    platform: Option<Seq<char>>,
    channel: Option<Seq<char>>,
    handle: Option<Seq<char>>,
) -> bool {
    &&& match platform {
        Some(p) => r.platform@ == p,
        None => true,
    }
    &&& substring_filter(r.channel@, channel)
    &&& optional_substring_filter(opt_str(r.channel_handle), handle)
}

pub open spec fn record_pred(
    platform: Option<Seq<char>>,
    channel: Option<Seq<char>>,
    handle: Option<Seq<char>>,
) -> spec_fn(TranscriptRecord) -> bool {
    |r: TranscriptRecord| record_matches(r, platform, channel, handle)
}

/// At most `limit` items; a negative limit sets none.
pub open spec fn limited<A>(s: Seq<A>, limit: i32) -> Seq<A> {
    if limit < 0 || limit as int >= s.len() {
        s
    } else {
        s.take(limit as int)
    }
}

pub open spec fn list_spec(
    rows: Seq<TranscriptRecord>,
    platform: Option<Seq<char>>,
    channel: Option<Seq<char>>,
    handle: Option<Seq<char>>,
    limit: i32,
) -> Seq<TranscriptRecord> {
    limited(rows.filter(record_pred(platform, channel, handle)), limit)
}

fn lower_opt(o: Option<&str>) -> (r: Option<Vec<char>>)
    ensures
        match o {
            Some(s) => r is Some && r->0@ == lower_of(s@),
            None => r is None,
        },
{
    match o {
        Some(s) => {
            let l = to_lower(s);
            Some(chars_of(l.as_str()))
        },
        None => None,
    }
}

fn passes_substring(value: &str, filter: &Option<Vec<char>>) -> (r: bool)
    ensures
        r == match filter {
            Some(f) => contains_seq(lower_of(value@), f@),
            None => true,
        },
{
    match filter {
        Some(f) => {
            let l = to_lower(value);
            let lv = chars_of(l.as_str());
            crate::text::contains_chars(&lv, f)
        },
        None => true,
    }
}

/// Keep the index rows that pass the filters, in the order given (newest
/// first, as the index returns them), at most `limit` of them.
pub fn list_all_transcripts(
    rows: Vec<TranscriptRecord>,
    platform: Option<&str>,
    channel: Option<&str>,
    handle: Option<&str>,
    limit: i32,
) -> (r: Vec<TranscriptRecord>)
    ensures
        r@ == list_spec(rows@, opt_view(platform), opt_view(channel), opt_view(handle), limit),
{
    let ghost pred = record_pred(opt_view(platform), opt_view(channel), opt_view(handle));
    let ghost orig = rows@;
    assert(orig.len() == rows.len());
    let cf = lower_opt(channel);
    let hf = lower_opt(handle);
    let mut rest = rows;
    let mut out: Vec<TranscriptRecord> = Vec::new();
    let mut i: usize = 0;
    assert(orig.take(0) =~= Seq::<TranscriptRecord>::empty());
    proof {
        reveal(Seq::filter);
    }
    assert(orig.take(0).filter(pred) =~= Seq::<TranscriptRecord>::empty());
    while rest.len() > 0
        invariant
            i + rest@.len() == orig.len(),
            orig.len() <= usize::MAX,
            rest@ == orig.skip(i as int),
            out@ == orig.take(i as int).filter(pred),
            pred == record_pred(opt_view(platform), opt_view(channel), opt_view(handle)),
            match channel {
                Some(s) => cf is Some && cf->0@ == lower_of(s@),
                None => cf is None,
            },
            match handle {
                Some(s) => hf is Some && hf->0@ == lower_of(s@),
                None => hf is None,
            },
        decreases rest.len(),
    {
        let row = rest.remove(0);
        assert(row == orig[i as int]);
        assert(orig.take(i + 1) =~= orig.take(i as int).push(row));
        proof {
            orig.take(i as int).lemma_filter_push(row, pred);
        }
        let platform_ok = match platform {
            Some(p) => crate::text::str_eq(row.platform.as_str(), p),
            None => true,
        };
        let channel_ok = passes_substring(row.channel.as_str(), &cf);
        let handle_ok = match &hf {
            Some(f) => match &row.channel_handle {
                Some(h) => passes_substring(h.as_str(), &hf),
                None => false,
            },
            None => true,
        };
        if platform_ok && channel_ok && handle_ok {
            out.push(row);
        }
        i += 1;
        assert(rest@ =~= orig.skip(i as int));
    }
    assert(orig.take(i as int) =~= orig);
    if limit >= 0 && (limit as usize) < out.len() {
        out.truncate(limit as usize);
    }
    out
}

/// Every row that a listing returns is a row of the index and passes each
/// filter given: its platform is the one asked for, and its channel
/// contains the channel filter, both lowercased.
pub proof fn lemma_list_filters(
    rows: Seq<TranscriptRecord>,
    platform: Option<Seq<char>>,
    channel: Option<Seq<char>>,
    handle: Option<Seq<char>>,
    limit: i32,
)
    ensures
        forall|k: int|
            0 <= k < list_spec(rows, platform, channel, handle, limit).len() ==> {
                let r = #[trigger] list_spec(rows, platform, channel, handle, limit)[k];
                &&& rows.contains(r)
                &&& platform is Some ==> r.platform@ == platform->0
                &&& channel is Some ==> contains_seq(lower_of(r.channel@), lower_of(channel->0))
                &&& handle is Some ==> r.channel_handle is Some && contains_seq(
                    lower_of(r.channel_handle->0@),
                    lower_of(handle->0),
                )
            },
{
    let pred = record_pred(platform, channel, handle);
    let f = rows.filter(pred);
    let l = list_spec(rows, platform, channel, handle, limit);
    assert forall|k: int| 0 <= k < l.len() implies {
        let r = #[trigger] l[k];
        &&& rows.contains(r)
        &&& platform is Some ==> r.platform@ == platform->0
        &&& channel is Some ==> contains_seq(lower_of(r.channel@), lower_of(channel->0))
        &&& handle is Some ==> r.channel_handle is Some && contains_seq(
            lower_of(r.channel_handle->0@),
            lower_of(handle->0),
        )
    } by {
        assert(l[k] == f[k]);
        rows.lemma_filter_pred(pred, k);
        rows.lemma_filter_contains_rev(pred, f[k]);
    }
}

/// What opening the index must change in an older schema.
#[derive(Debug, Clone)]
pub struct MigrationPlan {
    /// Rebuild the table without the old `chapters` column, and the
    /// full-text table with it.
    pub drop_chapters: bool,
    /// Add the `channel_handle` column.
    pub add_channel_handle: bool,
}

pub open spec fn has_column(columns: Seq<String>, name: Seq<char>) -> bool {
    exists|i: int| 0 <= i < columns.len() && columns[i]@ == name
}

fn has_column_exec(columns: &Vec<String>, name: &str) -> (r: bool)
    ensures
        r == has_column(columns@, name@),
{
    let mut i: usize = 0;
    while i < columns.len()
        invariant
            i <= columns.len(),
            forall|k: int| 0 <= k < i ==> columns@[k]@ != name@,
        decreases columns.len() - i,
    {
        if crate::text::str_eq(columns[i].as_str(), name) {
            return true;
        }
        i += 1;
    }
    false
}

/// The migration for a table with these columns. The rebuilt table has no
/// `channel_handle` column, so a rebuild is always followed by adding it.
pub fn migration_plan(columns: &Vec<String>) -> (r: MigrationPlan)
    ensures
        r.drop_chapters == has_column(columns@, "chapters"@),
        r.add_channel_handle == (has_column(columns@, "chapters"@) || !has_column(
            columns@,
            "channel_handle"@,
        )),
        !has_column(columns@, "chapters"@) && has_column(columns@, "channel_handle"@)
            ==> !r.drop_chapters && !r.add_channel_handle,
{
    let drop_chapters = has_column_exec(columns, "chapters");
    let has_handle = has_column_exec(columns, "channel_handle");
    MigrationPlan { drop_chapters, add_channel_handle: drop_chapters || !has_handle }
}

/// The columns of an index row that the totals read.
#[derive(Debug, Clone)]
pub struct StatsRow {
    pub channel: Option<String>,
    pub platform: Option<String>,
    pub duration: Option<i64>,
    pub word_count: Option<i64>,
}

/// The sum of the present values, absent when none is present.
pub open spec fn sum_present(s: Seq<Option<i64>>) -> Option<int>
    decreases s.len(),
{
    if s.len() == 0 {
        None
    } else {
        match (sum_present(s.drop_last()), s.last()) {
            (Some(a), Some(b)) => Some(a + b),
            (None, Some(b)) => Some(b as int),
            (a, None) => a,
        }
    }
}

pub open spec fn present_set(s: Seq<Option<String>>) -> Set<Seq<char>> {
    Set::new(|x: Seq<char>| exists|i: int| 0 <= i < s.len() && s[i] is Some && s[i]->0@ == x)
}

pub open spec fn durations(rows: Seq<StatsRow>) -> Seq<Option<i64>> {
    rows.map_values(|r: StatsRow| r.duration)
}

pub open spec fn word_counts(rows: Seq<StatsRow>) -> Seq<Option<i64>> {
    rows.map_values(|r: StatsRow| r.word_count)
}

pub open spec fn channels(rows: Seq<StatsRow>) -> Seq<Option<String>> {
    rows.map_values(|r: StatsRow| r.channel)
}

pub open spec fn platforms(rows: Seq<StatsRow>) -> Seq<Option<String>> {
    rows.map_values(|r: StatsRow| r.platform)
}

pub open spec fn fits_i64(o: Option<int>) -> bool {
    match o {
        Some(v) => i64::MIN <= v <= i64::MAX,
        None => true,
    }
}

pub open spec fn same_sum(r: Option<i64>, o: Option<int>) -> bool {
    match (r, o) {
        (Some(a), Some(b)) => a as int == b,
        (None, None) => true,
        _ => false,
    }
}

/// A running sum of the present values that fails once a partial sum
/// leaves the `i64` range, as the index's `SUM` does.
fn sum_column(vals: &Vec<Option<i64>>) -> (r: Option<Option<i64>>)
    ensures
        r is Some ==> same_sum(r->0, sum_present(vals@)),
        r is None ==> exists|k: int| 0 < k <= vals.len() && !fits_i64(sum_present(vals@.take(k))),
{
    let mut acc: Option<i64> = None;
    let mut i: usize = 0;
    assert(vals@.take(0) =~= Seq::<Option<i64>>::empty());
    while i < vals.len()
        invariant
            i <= vals.len(),
            same_sum(acc, sum_present(vals@.take(i as int))),
        decreases vals.len() - i,
    {
        assert(vals@.take(i + 1).drop_last() =~= vals@.take(i as int));
        match (acc, vals[i]) {
            (Some(a), Some(b)) => match a.checked_add(b) {
                Some(c) => acc = Some(c),
                None => return None,
            },
            (None, Some(b)) => acc = Some(b),
            (_, None) => {},
        }
        i += 1;
    }
    assert(vals@.take(vals.len() as int) =~= vals@);
    Some(acc)
}

fn distinct_count(vals: &Vec<Option<String>>) -> (r: usize)
    ensures
        r == present_set(vals@).len(),
{
    let mut seen: Vec<String> = Vec::new();
    let mut i: usize = 0;
    assert(present_set(vals@.take(0)) =~= Set::empty());
    assert(seen@.map_values(|s: String| s@).to_set() =~= Set::empty());
    while i < vals.len()
        invariant
            i <= vals.len(),
            seen@.map_values(|s: String| s@).no_duplicates(),
            seen@.map_values(|s: String| s@).to_set() == present_set(vals@.take(i as int)),
        decreases vals.len() - i,
    {
        let ghost names = seen@.map_values(|s: String| s@);
        let ghost prev = vals@.take(i as int);
        let ghost next = vals@.take(i + 1);
        assert(next =~= prev.push(vals@[i as int]));
        match &vals[i] {
            Some(v) => {
                let mut found = false;
                let mut j: usize = 0;
                while j < seen.len()
                    invariant
                        j <= seen.len(),
                        names == seen@.map_values(|s: String| s@),
                        found <==> exists|k: int| 0 <= k < j && names[k] == v@,
                    decreases seen.len() - j,
                {
                    assert(names[j as int] == seen@[j as int]@);
                    if seen[j] == *v {
                        found = true;
                    }
                    j += 1;
                }
                if !found {
                    seen.push(v.clone());
                    assert(seen@.map_values(|s: String| s@) =~= names.push(v@));
                    assert(!names.contains(v@));
                    assert forall|x: Seq<char>| #[trigger] names.push(v@).contains(x) <==> (
                    names.contains(x) || x == v@) by {
                        if names.push(v@).contains(x) {
                            let k = choose|k: int|
                                0 <= k < names.len() + 1 && names.push(v@)[k] == x;
                            if k < names.len() {
                                assert(names[k] == x);
                            }
                        }
                        if names.contains(x) {
                            let k = choose|k: int| 0 <= k < names.len() && names[k] == x;
                            assert(names.push(v@)[k] == x);
                        }
                        if x == v@ {
                            assert(names.push(v@)[names.len() as int] == x);
                        }
                    }
                } else {
                    assert(names.contains(v@));
                }
                let ghost now = seen@.map_values(|s: String| s@);
                assert forall|x: Seq<char>| #[trigger] now.contains(x) <==> (names.contains(x)
                    || x == v@) by {}
                assert forall|x: Seq<char>| #[trigger] names.contains(x) <==> present_set(
                    prev,
                ).contains(x) by {
                    assert(names.to_set().contains(x) == names.contains(x));
                }
                assert forall|x: Seq<char>| #[trigger] present_set(next).contains(x) <==> (
                present_set(prev).contains(x) || x == v@) by {
                    if present_set(next).contains(x) {
                        let k = choose|k: int|
                            0 <= k < next.len() && next[k] is Some && next[k]->0@ == x;
                        if k < prev.len() {
                            assert(prev[k] == next[k]);
                        }
                    }
                    if present_set(prev).contains(x) {
                        let k = choose|k: int|
                            0 <= k < prev.len() && prev[k] is Some && prev[k]->0@ == x;
                        assert(next[k] == prev[k]);
                    }
                    if x == v@ {
                        assert(next[prev.len() as int] == vals@[i as int]);
                    }
                }
                assert(now.to_set() =~= present_set(next));
            },
            None => {
                assert forall|x: Seq<char>| #[trigger] present_set(next).contains(x)
                    <==> present_set(prev).contains(x) by {
                    if present_set(next).contains(x) {
                        let k = choose|k: int|
                            0 <= k < next.len() && next[k] is Some && next[k]->0@ == x;
                        if k < prev.len() {
                            assert(prev[k] == next[k]);
                        }
                    }
                    if present_set(prev).contains(x) {
                        let k = choose|k: int|
                            0 <= k < prev.len() && prev[k] is Some && prev[k]->0@ == x;
                        assert(next[k] == prev[k]);
                    }
                }
                assert(present_set(next) =~= present_set(prev));
            },
        }
        i += 1;
    }
    assert(vals@.take(vals.len() as int) =~= vals@);
    proof {
        seen@.map_values(|s: String| s@).unique_seq_to_set();
    }
    seen.len()
}

fn count_i64(n: usize) -> (r: i64)
    ensures
        n <= i64::MAX ==> r == n as i64,
        n > i64::MAX ==> r == i64::MAX,
{
    if n as u128 > i64::MAX as u128 {
        i64::MAX
    } else {
        n as i64
    }
}

/// Totals over the rows of the index: how many rows, how many distinct
/// channels and platforms, and the summed duration and word count (absent
/// when no row has one). A sum that leaves the `i64` range is an error.
pub fn get_stats(rows: &Vec<StatsRow>) -> (r: Result<Stats, crate::error::Error>)
    ensures
        r is Ok ==> {
            let s = r->Ok_0;
            &&& s.total_transcripts as int == if rows@.len() <= i64::MAX {
                rows@.len() as int
            } else {
                i64::MAX as int
            }
            &&& s.unique_channels as int == if present_set(channels(rows@)).len() <= i64::MAX {
                present_set(channels(rows@)).len() as int
            } else {
                i64::MAX as int
            }
            &&& s.unique_platforms as int == if present_set(platforms(rows@)).len() <= i64::MAX {
                present_set(platforms(rows@)).len() as int
            } else {
                i64::MAX as int
            }
            &&& same_sum(s.total_duration, sum_present(durations(rows@)))
            &&& same_sum(s.total_words, sum_present(word_counts(rows@)))
        },
        r is Err ==> r->Err_0 is Database && ((exists|k: int|
            0 < k <= rows.len() && !fits_i64(sum_present(durations(rows@).take(k)))) || (exists|
            k: int|
            0 < k <= rows.len() && !fits_i64(sum_present(word_counts(rows@).take(k))))),
{
    let mut ch: Vec<Option<String>> = Vec::new();
    let mut pl: Vec<Option<String>> = Vec::new();
    let mut du: Vec<Option<i64>> = Vec::new();
    let mut wc: Vec<Option<i64>> = Vec::new();
    let mut i: usize = 0;
    while i < rows.len()
        invariant
            i <= rows.len(),
            ch@.len() == i && pl@.len() == i && du@.len() == i && wc@.len() == i,
            forall|k: int|
                0 <= k < i ==> opt_str(#[trigger] ch@[k]) == opt_str(rows@[k].channel),
            forall|k: int|
                0 <= k < i ==> opt_str(#[trigger] pl@[k]) == opt_str(rows@[k].platform),
            forall|k: int| 0 <= k < i ==> #[trigger] du@[k] == rows@[k].duration,
            forall|k: int| 0 <= k < i ==> #[trigger] wc@[k] == rows@[k].word_count,
        decreases rows.len() - i,
    {
        let row = &rows[i];
        ch.push(clone_opt(&row.channel));
        pl.push(clone_opt(&row.platform));
        du.push(row.duration);
        wc.push(row.word_count);
        i += 1;
    }
    assert(du@ =~= durations(rows@));
    assert(wc@ =~= word_counts(rows@));
    assert(present_set(ch@) =~= present_set(channels(rows@))) by {
        assert forall|x: Seq<char>| present_set(ch@).contains(x) <==> present_set(
            channels(rows@),
        ).contains(x) by {
            if present_set(ch@).contains(x) {
                let k = choose|k: int| 0 <= k < ch@.len() && ch@[k] is Some && ch@[k]->0@ == x;
                assert(opt_str(ch@[k]) == opt_str(rows@[k].channel));
                assert(channels(rows@)[k] == rows@[k].channel);
                assert(opt_str(ch@[k]) == Some(x));
                assert(rows@[k].channel is Some);
                assert(channels(rows@)[k]->0@ == x);
            }
            if present_set(channels(rows@)).contains(x) {
                let k = choose|k: int|
                    0 <= k < channels(rows@).len() && channels(rows@)[k] is Some && channels(
                        rows@,
                    )[k]->0@ == x;
                assert(opt_str(ch@[k]) == opt_str(rows@[k].channel));
                assert(channels(rows@)[k] == rows@[k].channel);
                assert(opt_str(rows@[k].channel) == Some(x));
                assert(ch@[k] is Some);
                assert(ch@[k]->0@ == x);
            }
        }
    }
    assert(present_set(pl@) =~= present_set(platforms(rows@))) by {
        assert forall|x: Seq<char>| present_set(pl@).contains(x) <==> present_set(
            platforms(rows@),
        ).contains(x) by {
            if present_set(pl@).contains(x) {
                let k = choose|k: int| 0 <= k < pl@.len() && pl@[k] is Some && pl@[k]->0@ == x;
                assert(opt_str(pl@[k]) == opt_str(rows@[k].platform));
                assert(platforms(rows@)[k] == rows@[k].platform);
                assert(opt_str(pl@[k]) == Some(x));
                assert(rows@[k].platform is Some);
                assert(platforms(rows@)[k]->0@ == x);
            }
            if present_set(platforms(rows@)).contains(x) {
                let k = choose|k: int|
                    0 <= k < platforms(rows@).len() && platforms(rows@)[k] is Some && platforms(
                        rows@,
                    )[k]->0@ == x;
                assert(opt_str(pl@[k]) == opt_str(rows@[k].platform));
                assert(platforms(rows@)[k] == rows@[k].platform);
                assert(opt_str(rows@[k].platform) == Some(x));
                assert(pl@[k] is Some);
                assert(pl@[k]->0@ == x);
            }
        }
    }
    let total_duration = match sum_column(&du) {
        Some(v) => v,
        None => return Err(crate::error::Error::Database(String::from_str("integer overflow"))),
    };
    let total_words = match sum_column(&wc) {
        Some(v) => v,
        None => return Err(crate::error::Error::Database(String::from_str("integer overflow"))),
    };
    let channels_n = distinct_count(&ch);
    let platforms_n = distinct_count(&pl);
    Ok(
        Stats {
            total_transcripts: count_i64(rows.len()),
            unique_channels: count_i64(channels_n),
            unique_platforms: count_i64(platforms_n),
            total_duration,
            total_words,
        },
    )
}

/// The outcome of indexing one transcript directory: its record when the
/// transcript, and the metadata if the directory has one, could be read;
/// else the first error, which the caller reports before going on.
pub fn reindex_unit(
    dir_name: &str,
    rel_parts: &Vec<String>,
    path: &str,
    transcript: Result<TranscriptData, crate::error::Error>,
    metadata: Result<Option<StoredMetadata>, crate::error::Error>,
) -> (r: Result<TranscriptMetadata, crate::error::Error>)
    ensures
        r is Ok <==> (transcript is Ok && metadata is Ok),
        transcript is Err ==> r == Err::<TranscriptMetadata, crate::error::Error>(
            transcript->Err_0,
        ),
        transcript is Ok && metadata is Err ==> r == Err::<TranscriptMetadata, crate::error::Error>(
            metadata->Err_0,
        ),
        r is Ok ==> index_record_spec(
            dir_name@,
            rel_parts@,
            path@,
            match metadata->Ok_0 {
                Some(m) => m,
                None => empty_metadata(),
            },
            transcript->Ok_0,
            r->Ok_0,
        ),
{
    let data = match transcript {
        Ok(d) => d,
        Err(e) => return Err(e),
    };
    let meta = match metadata {
        Ok(Some(m)) => m,
        Ok(None) => StoredMetadata {
            id: None,
            url: None,
            title: None,
            channel: None,
            uploader_id: None,
            duration: None,
            upload_date: None,
        },
        Err(e) => return Err(e),
    };
    Ok(index_record(dir_name, rel_parts, path, &meta, &data))
}

/// What one transcript directory gave when its files were read.
#[derive(Debug)]
pub struct ReindexUnit {
    pub dir_name: String,
    pub rel_parts: Vec<String>,
    pub path: String,
    pub transcript: Result<TranscriptData, crate::error::Error>,
    pub metadata: Result<Option<StoredMetadata>, crate::error::Error>,
}

/// A transcript directory that could not be indexed, and why.
#[derive(Debug)]
pub struct UnitFailure {
    pub path: String,
    pub error: crate::error::Error,
}

/// The outcome of a reindexing run.
#[derive(Debug)]
pub struct ReindexReport {
    pub records: Vec<TranscriptMetadata>,
    pub failures: Vec<UnitFailure>,
}

pub open spec fn unit_ok(u: ReindexUnit) -> bool {
    u.transcript is Ok && u.metadata is Ok
}

pub open spec fn unit_record_spec(u: ReindexUnit, r: TranscriptMetadata) -> bool {
    index_record_spec(
        u.dir_name@,
        u.rel_parts@,
        u.path@,
        match u.metadata->Ok_0 {
            Some(m) => m,
            None => empty_metadata(),
        },
        u.transcript->Ok_0,
        r,
    )
}

/// Index every transcript directory of a run: each one whose files could be
/// read gives one record, in order; each other one gives one failure, and
/// the run goes on.
pub fn reindex_all(units: Vec<ReindexUnit>) -> (r: ReindexReport)
    ensures
        r.records@.len() == units@.filter(|u: ReindexUnit| unit_ok(u)).len(),
        r.records@.len() + r.failures@.len() == units@.len(),
        forall|k: int|
            0 <= k < r.records@.len() ==> unit_record_spec(
                units@.filter(|u: ReindexUnit| unit_ok(u))[k],
                #[trigger] r.records@[k],
            ),
        r.failures@.len() == units@.filter(|u: ReindexUnit| !unit_ok(u)).len(),
        forall|k: int|
            0 <= k < r.failures@.len() ==> (#[trigger] r.failures@[k]).path@ == units@.filter(
                |u: ReindexUnit| !unit_ok(u),
            )[k].path@,
{
    let ghost bad = |u: ReindexUnit| !unit_ok(u);
    let ghost pred = |u: ReindexUnit| unit_ok(u);
    let ghost orig = units@;
    assert(orig.len() == units.len());
    let mut rest = units;
    let mut records: Vec<TranscriptMetadata> = Vec::new();
    let mut failures: Vec<UnitFailure> = Vec::new();
    let mut i: usize = 0;
    proof {
        reveal(Seq::filter);
    }
    assert(orig.take(0).filter(pred) =~= Seq::<ReindexUnit>::empty());
    assert(orig.take(0).filter(bad) =~= Seq::<ReindexUnit>::empty());
    while rest.len() > 0
        invariant
            i + rest@.len() == orig.len(),
            orig.len() <= usize::MAX,
            rest@ == orig.skip(i as int),
            pred == (|u: ReindexUnit| unit_ok(u)),
            bad == (|u: ReindexUnit| !unit_ok(u)),
            failures@.len() == orig.take(i as int).filter(bad).len(),
            forall|k: int|
                0 <= k < failures@.len() ==> (#[trigger] failures@[k]).path@ == orig.take(
                    i as int,
                ).filter(bad)[k].path@,
            records@.len() == orig.take(i as int).filter(pred).len(),
            records@.len() + failures@.len() == i,
            forall|k: int|
                0 <= k < records@.len() ==> unit_record_spec(
                    orig.take(i as int).filter(pred)[k],
                    #[trigger] records@[k],
                ),
        decreases rest.len(),
    {
        let unit = rest.remove(0);
        assert(unit == orig[i as int]);
        assert(orig.take(i + 1) =~= orig.take(i as int).push(unit));
        proof {
            orig.take(i as int).lemma_filter_push(unit, pred);
            orig.take(i as int).lemma_filter_push(unit, bad);
        }
        let ghost u = unit;
        let ReindexUnit { dir_name, rel_parts, path, transcript, metadata } = unit;
        match reindex_unit(dir_name.as_str(), &rel_parts, path.as_str(), transcript, metadata) {
            Ok(record) => {
                records.push(record);
                assert(orig.take(i + 1).filter(pred) == orig.take(i as int).filter(pred).push(u));
            },
            Err(error) => {
                failures.push(UnitFailure { path, error });
                assert(orig.take(i + 1).filter(bad) == orig.take(i as int).filter(bad).push(u));
            },
        }
        i += 1;
        assert(rest@ =~= orig.skip(i as int));
    }
    assert(orig.take(i as int) =~= orig);
    ReindexReport { records, failures }
}

/// Reindexing converges on the files: the units that fail are exactly the
/// ones whose files could not be read, so when every transcript directory
/// can be read, a run yields one record for each of them.
pub proof fn lemma_reindex_convergence(units: Seq<ReindexUnit>)
    ensures
        units.len() - units.filter(|u: ReindexUnit| unit_ok(u)).len() == units.filter(
            |u: ReindexUnit| !unit_ok(u),
        ).len(),
        (forall|k: int| 0 <= k < units.len() ==> unit_ok(#[trigger] units[k])) ==> units.filter(
            |u: ReindexUnit| unit_ok(u),
        ).len() == units.len(),
    decreases units.len(),
{
    let ok = |u: ReindexUnit| unit_ok(u);
    let bad = |u: ReindexUnit| !unit_ok(u);
    reveal(Seq::filter);
    if units.len() > 0 {
        let d = units.drop_last();
        lemma_reindex_convergence(d);
        assert(d.push(units.last()) =~= units);
        d.lemma_filter_push(units.last(), ok);
        d.lemma_filter_push(units.last(), bad);
        if forall|k: int| 0 <= k < units.len() ==> unit_ok(#[trigger] units[k]) {
            assert forall|k: int| 0 <= k < d.len() implies unit_ok(#[trigger] d[k]) by {
                assert(d[k] == units[k]);
            }
            assert(unit_ok(units[units.len() - 1]));
        }
    }
}

pub open spec fn empty_metadata() -> StoredMetadata {
    StoredMetadata {
        id: None,
        url: None,
        title: None,
        channel: None,
        uploader_id: None,
        duration: None,
        upload_date: None,
    }
}

} // verus!
